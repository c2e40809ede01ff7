//! Window and input orchestration decisions: which overlay windows to
//! create and how to configure them, which monitor gets a secondary window
//! when the primary window gains focus, where each button lands in the
//! grid, and what a key press or a click means.
//!
//! Monitors are identified by opaque handles the core only compares for
//! equality; they appear here as plain integer identities.

use vstd::prelude::*;
use vstd::string::*;
use crate::settings::{ButtonInfo, ButtonModel, buttons_view};

verus! {

/// A key press as the windowing layer reports it: whether it is the escape
/// key, and the key's textual name if it has one.
#[derive(Clone, Debug)]
pub struct KeyEvent {
    pub is_escape: bool,
    pub name: Option<String>,
}

/// What a key press leads to.
#[derive(Clone, Copy, Debug, PartialEq, Eq, Structural)]
pub enum KeyAction {
    /// Quit the whole application.
    Quit,
    /// Activate the button at this position of the grid.
    Activate(usize),
    /// Leave the key unconsumed so default handling sees it.
    Propagate,
}

/// Model of [`KeyAction`]: positions as mathematical integers.
pub enum KeyActionModel {
    Quit,
    Activate(int),
    Propagate,
}

impl View for KeyAction {
    type V = KeyActionModel;

    open spec fn view(&self) -> KeyActionModel {
        match self {
            KeyAction::Quit => KeyActionModel::Quit,
            KeyAction::Activate(i) => KeyActionModel::Activate(*i as int),
            KeyAction::Propagate => KeyActionModel::Propagate,
        }
    }
}

/// A key name matches a button exactly when it is the button's keybind
/// character, stringified.
pub open spec fn keybind_matches(name: Seq<char>, b: ButtonModel) -> bool {
    name == seq![b.keybind]
}

/// The position of the first button from `i` on whose keybind matches the
/// key name, if any: buttons are tried in grid order, first match wins.
pub open spec fn spec_first_match(name: Seq<char>, bs: Seq<ButtonModel>, i: int) -> Option<int>
    decreases bs.len() - i,
{
    if i < 0 || i >= bs.len() {
        None
    } else if keybind_matches(name, bs[i]) {
        Some(i)
    } else {
        spec_first_match(name, bs, i + 1)
    }
}

/// The dispatch rule: escape quits; otherwise a named key activates the
/// first button in grid order whose keybind matches; anything else is left
/// to default handling.
pub open spec fn spec_dispatch(
    is_escape: bool,
    name: Option<Seq<char>>,
    bs: Seq<ButtonModel>,
) -> KeyActionModel {
    if is_escape {
        KeyActionModel::Quit
    } else {
        match name {
            None => KeyActionModel::Propagate,
            Some(n) => match spec_first_match(n, bs, 0) {
                Some(i) => KeyActionModel::Activate(i),
                None => KeyActionModel::Propagate,
            },
        }
    }
}

/// Whether a key name is this keybind character, stringified.
fn key_name_is(name: &String, keybind: char) -> (r: bool)
    ensures
        r == (name@ == seq![keybind]),
{
    let s = name.as_str();
    let r = s.unicode_len() == 1 && s.get_char(0) == keybind;
    proof {
        if r {
            assert(name@ =~= seq![keybind]);
        }
    }
    r
}

/// Decide what a key press does, by the dispatch rule of
/// [`spec_dispatch`]: buttons are compared in grid order and the earliest
/// matching keybind wins.
#[verifier::loop_isolation(false)]
pub fn dispatch_key(ev: &KeyEvent, buttons: &Vec<ButtonInfo>) -> (r: KeyAction)
    ensures
        r@ == spec_dispatch(
            ev.is_escape,
            match ev.name {
                Some(n) => Some(n@),
                None => None,
            },
            buttons_view(buttons@),
        ),
        r matches KeyAction::Activate(i) ==> i < buttons@.len(),
{
    if ev.is_escape {
        return KeyAction::Quit;
    }
    match &ev.name {
        None => KeyAction::Propagate,
        Some(n) => {
            let ghost bm = buttons_view(buttons@);
            let mut i: usize = 0;
            while i < buttons.len()
                invariant
                    i <= buttons@.len(),
                    spec_first_match(n@, bm, 0) == spec_first_match(n@, bm, i as int),
                decreases buttons@.len() - i,
            {
                if key_name_is(n, buttons[i].keybind) {
                    return KeyAction::Activate(i);
                }
                i = i + 1;
            }
            KeyAction::Propagate
        },
    }
}

/// Helper for the order-stability law: from any start at or before a
/// matching position, the first match exists and is no later than it.
proof fn lemma_first_match_le(name: Seq<char>, bs: Seq<ButtonModel>, start: int, i: int)
    requires
        0 <= start <= i < bs.len(),
        keybind_matches(name, bs[i]),
    ensures
        spec_first_match(name, bs, start) matches Some(k) && start <= k <= i,
    decreases i - start,
{
    if !keybind_matches(name, bs[start]) {
        lemma_first_match_le(name, bs, start + 1, i);
    }
}

/// Keybind dispatch is order-stable: when two buttons carry the same
/// keybind character, the one appearing earlier in the button list always
/// wins — the dispatched position is never the later one.
pub proof fn lemma_dispatch_order_stable(name: Seq<char>, bs: Seq<ButtonModel>, i: int, j: int)
    requires
        0 <= i < j < bs.len(),
        keybind_matches(name, bs[i]),
        keybind_matches(name, bs[j]),
    ensures
        spec_dispatch(false, Some(name), bs) matches KeyActionModel::Activate(k) && k <= i < j,
{
    lemma_first_match_le(name, bs, 0, i);
}

/// Whether a pointer press dismisses the overlay: only a click landing
/// exactly on the window background — the gesture's widget is the window
/// and so is the picked target, not a button — requests application-wide
/// quit; clicks on buttons are left to the buttons.
pub fn click_dismisses(widget_is_window: bool, target_is_window: bool) -> (r: bool)
    ensures
        r == (widget_is_window && target_is_window),
{
    widget_is_window && target_is_window
}

/// The monitors that need a secondary window once the primary window sits
/// on `focused`: every monitor but that one, in enumeration order.
pub open spec fn spec_secondary_monitors(monitors: Seq<u64>, focused: u64) -> Seq<u64>
    decreases monitors.len(),
{
    if monitors.len() == 0 {
        Seq::empty()
    } else {
        let rest = spec_secondary_monitors(monitors.drop_last(), focused);
        if monitors.last() != focused {
            rest.push(monitors.last())
        } else {
            rest
        }
    }
}

/// Compute the monitors that get a secondary window: all monitors minus
/// the one hosting the primary window, recomputed from the full monitor
/// enumeration each time focus is gained, in enumeration order.
#[verifier::loop_isolation(false)]
pub fn secondary_monitors(monitors: &Vec<u64>, focused: u64) -> (r: Vec<u64>)
    ensures
        r@ == spec_secondary_monitors(monitors@, focused),
{
    let mut r: Vec<u64> = Vec::new();
    let mut i: usize = 0;
    while i < monitors.len()
        invariant
            i <= monitors@.len(),
            r@ == spec_secondary_monitors(monitors@.take(i as int), focused),
        decreases monitors@.len() - i,
    {
        let m = monitors[i];
        proof {
            assert(monitors@.take(i + 1).drop_last() =~= monitors@.take(i as int));
            assert(monitors@.take(i + 1).last() == monitors@[i as int]);
        }
        if m != focused {
            r.push(m);
        }
        i = i + 1;
    }
    proof {
        assert(monitors@.take(monitors@.len() as int) =~= monitors@);
    }
    r
}

/// The set of secondary windows is exactly (all monitors) minus (the
/// monitor hosting the primary window): a monitor gets a secondary window
/// if and only if it is enumerated and is not the focused one — and the
/// focused monitor never gets one.
pub proof fn lemma_secondary_exactly_others(monitors: Seq<u64>, focused: u64)
    ensures
        forall|m: u64|
            #[trigger] spec_secondary_monitors(monitors, focused).contains(m) <==> (
            monitors.contains(m) && m != focused),
        !spec_secondary_monitors(monitors, focused).contains(focused),
    decreases monitors.len(),
{
    let full = spec_secondary_monitors(monitors, focused);
    if monitors.len() == 0 {
        assert forall|m: u64| !(#[trigger] full.contains(m)) by {
            assert(full.len() == 0);
        }
    } else {
        lemma_secondary_exactly_others(monitors.drop_last(), focused);
        let sub = spec_secondary_monitors(monitors.drop_last(), focused);
        assert forall|m: u64| #[trigger] full.contains(m) implies monitors.contains(m) && m
            != focused by {
            let k = choose|k: int| 0 <= k < full.len() && full[k] == m;
            if monitors.last() != focused && k == full.len() - 1 {
                assert(monitors[monitors.len() - 1] == m);
            } else {
                assert(sub[k] == m);
                assert(sub.contains(m));
                let j = choose|j: int|
                    0 <= j < monitors.drop_last().len() && monitors.drop_last()[j] == m;
                assert(monitors[j] == m);
            }
        }
        assert forall|m: u64| monitors.contains(m) && m != focused implies #[trigger] full.contains(
            m,
        ) by {
            let j = choose|j: int| 0 <= j < monitors.len() && monitors[j] == m;
            if j == monitors.len() - 1 {
                assert(full[full.len() - 1] == m);
            } else {
                assert(monitors.drop_last()[j] == m);
                assert(monitors.drop_last().contains(m));
                assert(sub.contains(m));
                let k = choose|k: int| 0 <= k < sub.len() && sub[k] == m;
                if monitors.last() != focused {
                    assert(full[k] == m);
                } else {
                    assert(full.contains(m));
                }
            }
        }
    }
}

/// How one overlay window is to be configured: anchored to all four screen
/// edges on the topmost overlay layer, with an exclusive input zone, and
/// keyboard handling enabled on the primary window only.
#[derive(Clone, Copy, Debug, PartialEq, Eq, Structural)]
pub struct OverlayWindowConfig {
    pub anchor_left: bool,
    pub anchor_right: bool,
    pub anchor_top: bool,
    pub anchor_bottom: bool,
    pub exclusive_zone: i32,
    pub topmost_overlay: bool,
    pub keyboard_exclusive: bool,
}

/// The namespace — and title — every overlay window carries; compositors
/// match layer surfaces by it, so it is part of the window contract.
pub fn window_namespace() -> (r: String)
    ensures
        r@ == "curtains-close"@,
{
    String::from_str("curtains-close")
}

/// The configuration every overlay window gets: all four edges anchored,
/// topmost overlay layer, exclusive input zone, keyboard exclusively
/// grabbed exactly when the window is the primary one.
pub fn overlay_window_config(primary: bool) -> (c: OverlayWindowConfig)
    ensures
        c.anchor_left && c.anchor_right && c.anchor_top && c.anchor_bottom,
        c.exclusive_zone == -1,
        c.topmost_overlay,
        c.keyboard_exclusive == primary,
{
    OverlayWindowConfig {
        anchor_left: true,
        anchor_right: true,
        anchor_top: true,
        anchor_bottom: true,
        exclusive_zone: -1i32,
        topmost_overlay: true,
        keyboard_exclusive: primary,
    }
}

/// One window to create: the monitor it goes to (`None` lets the
/// windowing system pick, as for the primary window) and its
/// configuration.
#[derive(Clone, Copy, Debug, PartialEq, Eq, Structural)]
pub struct WindowPlan {
    pub monitor: Option<u64>,
    pub config: OverlayWindowConfig,
}

/// The primary window: created at activation, keyboard-enabled, not tied
/// to a particular monitor.
pub fn primary_window_plan() -> (p: WindowPlan)
    ensures
        p.monitor is None,
        p.config == overlay_window_config_model(true),
{
    WindowPlan { monitor: None, config: overlay_window_config(true) }
}

/// The configuration [`overlay_window_config`] returns, as a spec value.
pub open spec fn overlay_window_config_model(primary: bool) -> OverlayWindowConfig {
    OverlayWindowConfig {
        anchor_left: true,
        anchor_right: true,
        anchor_top: true,
        anchor_bottom: true,
        exclusive_zone: -1i32,
        topmost_overlay: true,
        keyboard_exclusive: primary,
    }
}

/// The secondary window planned for one monitor: keyboard-disabled, tied
/// to that monitor.
pub open spec fn spec_secondary_plan(m: u64) -> WindowPlan {
    WindowPlan { monitor: Some(m), config: overlay_window_config_model(false) }
}

/// The secondary windows planned when the primary window gains focus.
pub open spec fn spec_secondary_plans(monitors: Seq<u64>, focused: u64) -> Seq<WindowPlan> {
    spec_secondary_monitors(monitors, focused).map_values(|m: u64| spec_secondary_plan(m))
}

/// The secondary windows created when the primary window gains focus: one
/// keyboard-disabled window per monitor other than the focused one.
#[verifier::loop_isolation(false)]
pub fn secondary_window_plans(monitors: &Vec<u64>, focused: u64) -> (r: Vec<WindowPlan>)
    ensures
        r@ == spec_secondary_plans(monitors@, focused),
{
    let targets = secondary_monitors(monitors, focused);
    let mut r: Vec<WindowPlan> = Vec::new();
    let mut i: usize = 0;
    while i < targets.len()
        invariant
            i <= targets@.len(),
            r@.len() == i,
            forall|j: int| 0 <= j < i ==> r@[j] == spec_secondary_plan(targets@[j]),
        decreases targets@.len() - i,
    {
        r.push(WindowPlan { monitor: Some(targets[i]), config: overlay_window_config(false) });
        i = i + 1;
    }
    proof {
        assert(r@ =~= spec_secondary_plans(monitors@, focused));
    }
    r
}

/// Exactly one window is keyboard-enabled at any time: the primary plan
/// is, and no secondary plan ever is.
pub proof fn lemma_one_keyboard_window(
    primary: WindowPlan,
    monitors: Seq<u64>,
    focused: u64,
)
    requires
        primary.config == overlay_window_config_model(true),
    ensures
        ({
            let plans = seq![primary] + spec_secondary_plans(monitors, focused);
            &&& plans[0].config.keyboard_exclusive
            &&& forall|i: int|
                1 <= i < plans.len() ==> !(#[trigger] plans[i]).config.keyboard_exclusive
        }),
{
    let plans = seq![primary] + spec_secondary_plans(monitors, focused);
    assert forall|i: int| 1 <= i < plans.len() implies !(#[trigger] plans[i]).config.keyboard_exclusive by {
        assert(plans[i] == spec_secondary_plans(monitors, focused)[i - 1]);
    }
}

/// Where button `i` lands in the grid: buttons fill a row left to right
/// and wrap after `per_row` columns; a zero `per_row` puts every button in
/// its own row of one column.
pub open spec fn spec_grid_position(i: int, per_row: u32) -> (u32, u32)
    recommends
        0 <= i <= u32::MAX,
{
    if per_row == 0 {
        (0u32, i as u32)
    } else {
        ((i % (per_row as int)) as u32, (i / (per_row as int)) as u32)
    }
}

/// The grid position of each of `count` buttons, in insertion order:
/// position `i` is `(i % per_row, i / per_row)`, so rows wrap at
/// `per_row` columns.
#[verifier::loop_isolation(false)]
pub fn grid_positions(count: usize, per_row: u32) -> (r: Vec<(u32, u32)>)
    requires
        count <= u32::MAX,
    ensures
        r@.len() == count,
        forall|i: int| 0 <= i < count ==> r@[i] == spec_grid_position(i, per_row),
{
    let mut r: Vec<(u32, u32)> = Vec::new();
    let mut current_column: u32 = 0;
    let mut current_row: u32 = 0;
    let mut i: usize = 0;
    while i < count
        invariant
            i <= count,
            r@.len() == i,
            forall|j: int| 0 <= j < i ==> r@[j] == spec_grid_position(j, per_row),
            (current_column, current_row) == spec_grid_position(i as int, per_row),
        decreases count - i,
    {
        r.push((current_column, current_row));
        proof {
            if per_row > 0 {
                lemma_grid_step(i as int, per_row);
            }
        }
        i = i + 1;
        current_column = current_column + 1;
        if current_column >= per_row {
            current_column = 0;
            current_row = current_row + 1;
        }
    }
    r
}

/// What the standard white-space test decides of one character; named,
/// since the Unicode white-space set is the outside function's own.
pub uninterp spec fn white_space(c: char) -> bool;

/// Relies on `char::is_whitespace`: whether the character has the Unicode
/// white-space property; a function of the character alone.
#[verifier::external_body]
fn char_is_whitespace(c: char) -> (r: bool)
    ensures
        r == white_space(c),
{
    c.is_whitespace()
}

/// The first position at or after `i` holding no white space.
pub open spec fn skip_spaces(s: Seq<char>, i: int) -> int
    decreases s.len() - i,
{
    if 0 <= i < s.len() && white_space(s[i]) {
        skip_spaces(s, i + 1)
    } else {
        i
    }
}

/// Skipping white space never moves backwards nor past the end.
pub proof fn lemma_skip_spaces_bounds(s: Seq<char>, i: int)
    requires
        0 <= i <= s.len(),
    ensures
        i <= skip_spaces(s, i) <= s.len(),
    decreases s.len() - i,
{
    if i < s.len() && white_space(s[i]) {
        lemma_skip_spaces_bounds(s, i + 1);
    }
}

/// Skipping white space stops at a character that is none.
pub proof fn lemma_skip_spaces_stops(s: Seq<char>, i: int)
    requires
        0 <= i <= s.len(),
    ensures
        skip_spaces(s, i) < s.len() ==> !white_space(s[skip_spaces(s, i)]),
    decreases s.len() - i,
{
    if i < s.len() && white_space(s[i]) {
        lemma_skip_spaces_stops(s, i + 1);
    }
}

/// The position right after the word starting at `i`: the first white
/// space at or after `i`, or the end.
pub open spec fn word_end(s: Seq<char>, i: int) -> int
    decreases s.len() - i,
{
    if 0 <= i < s.len() && !white_space(s[i]) {
        word_end(s, i + 1)
    } else {
        i
    }
}

/// A word never reaches backwards nor past the end.
pub proof fn lemma_word_end_bounds(s: Seq<char>, i: int)
    requires
        0 <= i <= s.len(),
    ensures
        i <= word_end(s, i) <= s.len(),
    decreases s.len() - i,
{
    if i < s.len() && !white_space(s[i]) {
        lemma_word_end_bounds(s, i + 1);
    }
}

/// The words of a command line from position `i` on: maximal runs of
/// non-white-space characters, in order.
pub open spec fn spec_words(s: Seq<char>, i: int) -> Seq<Seq<char>>
    decreases s.len() - i,
    via spec_words_decreases
{
    if !(0 <= i <= s.len()) {
        Seq::empty()
    } else {
        let j = skip_spaces(s, i);
        if j >= s.len() {
            Seq::empty()
        } else {
            let k = word_end(s, j);
            seq![s.subrange(j, k)] + spec_words(s, k)
        }
    }
}

#[via_fn]
proof fn spec_words_decreases(s: Seq<char>, i: int) {
    if 0 <= i <= s.len() {
        lemma_skip_spaces_bounds(s, i);
        lemma_skip_spaces_stops(s, i);
        let j = skip_spaces(s, i);
        if j < s.len() {
            lemma_word_end_bounds(s, j + 1);
            assert(word_end(s, j) == word_end(s, j + 1));
        }
    }
}

/// The model of a list of strings.
pub open spec fn strings_view(ss: Seq<String>) -> Seq<Seq<char>> {
    ss.map_values(|x: String| x@)
}

/// The first position at or after `i` holding no white space.
fn spaces_end(s: &Vec<char>, i: usize) -> (j: usize)
    requires
        i <= s@.len(),
    ensures
        j == skip_spaces(s@, i as int),
        i <= j <= s@.len(),
{
    let mut j = i;
    loop
        invariant
            i <= j <= s@.len(),
            skip_spaces(s@, i as int) == skip_spaces(s@, j as int),
        ensures
            j == skip_spaces(s@, i as int),
            i <= j <= s@.len(),
        decreases s@.len() - j,
    {
        if j < s.len() && char_is_whitespace(s[j]) {
            j = j + 1;
        } else {
            return j;
        }
    }
}

/// The position right after the word starting at `i`.
fn word_end_exec(s: &Vec<char>, i: usize) -> (j: usize)
    requires
        i <= s@.len(),
    ensures
        j == word_end(s@, i as int),
        i <= j <= s@.len(),
{
    let mut j = i;
    loop
        invariant
            i <= j <= s@.len(),
            word_end(s@, i as int) == word_end(s@, j as int),
        ensures
            j == word_end(s@, i as int),
            i <= j <= s@.len(),
        decreases s@.len() - j,
    {
        if j < s.len() && !char_is_whitespace(s[j]) {
            j = j + 1;
        } else {
            return j;
        }
    }
}

/// The words from position `i` on, each as its own string.
fn words_from(s: &Vec<char>, i: usize) -> (r: Vec<String>)
    requires
        i <= s@.len(),
    ensures
        strings_view(r@) == spec_words(s@, i as int),
    decreases s@.len() - i,
{
    let j = spaces_end(s, i);
    if j >= s.len() {
        let r: Vec<String> = Vec::new();
        proof {
            assert(strings_view(r@) =~= spec_words(s@, i as int));
        }
        r
    } else {
        let k = word_end_exec(s, j);
        proof {
            lemma_skip_spaces_stops(s@, i as int);
            assert(word_end(s@, j as int) == word_end(s@, j as int + 1));
            lemma_word_end_bounds(s@, j as int + 1);
        }
        let mut w: Vec<char> = Vec::new();
        let mut m = j;
        while m < k
            invariant
                j <= m <= k <= s@.len(),
                w@ == s@.subrange(j as int, m as int),
            decreases k - m,
        {
            w.push(s[m]);
            m = m + 1;
            proof {
                assert(w@ =~= s@.subrange(j as int, m as int));
            }
        }
        let word = crate::text::chars_to_string(&w);
        let mut rest = words_from(s, k);
        rest.insert(0, word);
        proof {
            assert(strings_view(rest@) =~= seq![s@.subrange(j as int, k as int)] + strings_view(
                rest@.subrange(1, rest@.len() as int),
            ));
        }
        rest
    }
}

/// How a button's activation runs: the command's first word is the
/// program, the remaining words its arguments; whether and after how many
/// milliseconds the whole application quits afterwards.
#[derive(Clone, Debug)]
pub struct CommandPlan {
    pub program: String,
    pub args: Vec<String>,
    pub terminate_on_click: bool,
    pub terminate_delay_ms: u32,
}

/// Split a button's command line into the program and its arguments and
/// carry the termination choice along: a command of white space alone has
/// nothing to run, and activating it does nothing.
#[verifier::loop_isolation(false)]
pub fn command_plan(command: &str, terminate_on_click: bool, terminate_delay_ms: u32) -> (r: Option<
    CommandPlan,
>)
    ensures
        spec_words(command@, 0).len() == 0 ==> r is None,
        spec_words(command@, 0).len() > 0 ==> (r matches Some(p) && p.program@ == spec_words(
            command@,
            0,
        )[0] && strings_view(p.args@) == spec_words(command@, 0).drop_first()
            && p.terminate_on_click == terminate_on_click && p.terminate_delay_ms
            == terminate_delay_ms),
{
    let chars = crate::text::str_to_chars(command);
    let mut words = words_from(&chars, 0);
    if words.len() == 0 {
        None
    } else {
        let program = words.remove(0);
        proof {
            assert(strings_view(words@) =~= spec_words(command@, 0).drop_first());
        }
        Some(CommandPlan { program, args: words, terminate_on_click, terminate_delay_ms })
    }
}

/// One wrap step of the grid walk: advancing from button `i` to `i + 1`
/// either moves one column right or wraps to the start of the next row.
proof fn lemma_grid_step(i: int, per_row: u32)
    requires
        0 <= i,
        per_row > 0,
    ensures
        i % (per_row as int) == per_row - 1 ==> (i + 1) % (per_row as int) == 0 && (i + 1) / (
        per_row as int) == i / (per_row as int) + 1,
        i % (per_row as int) < per_row - 1 ==> (i + 1) % (per_row as int) == i % (per_row as int)
            + 1 && (i + 1) / (per_row as int) == i / (per_row as int),
{
    let p = per_row as int;
    vstd::arithmetic::div_mod::lemma_fundamental_div_mod(i, p);
    let q = i / p;
    let r = i % p;
    vstd::arithmetic::div_mod::lemma_mod_bound(i, p);
    assert(p * q == q * p) by (nonlinear_arith);
    assert((q + 1) * p == q * p + p) by (nonlinear_arith);
    if r == p - 1 {
        assert(i + 1 == (q + 1) * p + 0);
        vstd::arithmetic::div_mod::lemma_fundamental_div_mod_converse(i + 1, p, q + 1, 0);
    } else {
        assert(i + 1 == q * p + (r + 1));
        vstd::arithmetic::div_mod::lemma_fundamental_div_mod_converse(i + 1, p, q, r + 1);
    }
}

} // verus!
