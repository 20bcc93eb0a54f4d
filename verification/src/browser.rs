//! The interactive browser's state machine: a selection over an ordered list
//! of display rows, a two-mode layout (grid, fullscreen), per-pane scroll
//! offsets, and a focus that is only meaningful in fullscreen.
//!
//! The valid mode/focus pairs are one tagged enum, so that states such as
//! "grid with a focused response pane" are unrepresentable. Every key
//! transition is a total function over the state space.

use vstd::prelude::*;
use std::collections::HashMap;
use crate::project::DisplayRow;
use crate::json::{json_wf, pretty_json, prettify_json};

verus! {

broadcast use vstd::std_specs::hash::group_hash_axioms;

/// The valid combinations of layout mode and focused pane.
///
/// In grid mode the list is the only focusable pane; in fullscreen the focus
/// alternates between the payload pane and the response pane.
#[derive(Clone, Copy, Debug, PartialEq, Eq, Structural)]
pub enum ModeFocus {
    Grid,
    FullscreenPayload,
    FullscreenResponse,
}

/// One navigation input, already decoded from a raw key press.
#[derive(Clone, Copy, Debug, PartialEq, Eq, Structural)]
pub enum NavEvent {
    Next,
    Previous,
    ToggleFullscreen,
    FocusCycle,
    ScrollUp,
    ScrollDown,
}

/// The navigation-relevant part of the browser state, as mathematical values:
/// the number of rows, the selected index, the mode/focus pair, and the two
/// scroll offsets.
pub ghost struct NavView {
    pub n: int,
    pub selected: int,
    pub mode: ModeFocus,
    pub payload_scroll: int,
    pub response_scroll: int,
}

pub open spec fn is_fullscreen(m: ModeFocus) -> bool {
    m is FullscreenPayload || m is FullscreenResponse
}

pub open spec fn spec_next(v: NavView) -> NavView {
    if v.mode is Grid && v.n > 0 {
        NavView { selected: if v.selected + 1 == v.n { 0 } else { v.selected + 1 }, ..v }
    } else {
        v
    }
}

pub open spec fn spec_previous(v: NavView) -> NavView {
    if v.mode is Grid && v.n > 0 {
        NavView { selected: if v.selected == 0 { v.n - 1 } else { v.selected - 1 }, ..v }
    } else {
        v
    }
}

pub open spec fn spec_toggle_fullscreen(v: NavView) -> NavView {
    NavView {
        mode: match v.mode {
            ModeFocus::Grid => ModeFocus::FullscreenPayload,
            ModeFocus::FullscreenPayload => ModeFocus::Grid,
            ModeFocus::FullscreenResponse => ModeFocus::Grid,
        },
        ..v
    }
}

pub open spec fn spec_focus_cycle(v: NavView) -> NavView {
    NavView {
        mode: match v.mode {
            ModeFocus::Grid => ModeFocus::Grid,
            ModeFocus::FullscreenPayload => ModeFocus::FullscreenResponse,
            ModeFocus::FullscreenResponse => ModeFocus::FullscreenPayload,
        },
        ..v
    }
}

/// Scroll offsets live in a `u16`; scrolling down saturates there.
pub const SCROLL_MAX: u16 = 65535;

pub open spec fn spec_scroll_down(v: NavView) -> NavView {
    if v.n == 0 {
        v
    } else {
        match v.mode {
        ModeFocus::Grid => v,
        ModeFocus::FullscreenPayload => NavView {
            payload_scroll: if v.payload_scroll < SCROLL_MAX {
                v.payload_scroll + 1
            } else {
                v.payload_scroll
            },
            ..v
        },
        ModeFocus::FullscreenResponse => NavView {
            response_scroll: if v.response_scroll < SCROLL_MAX {
                v.response_scroll + 1
            } else {
                v.response_scroll
            },
            ..v
        },
        }
    }
}

pub open spec fn spec_scroll_up(v: NavView) -> NavView {
    if v.n == 0 {
        v
    } else {
        match v.mode {
        ModeFocus::Grid => v,
        ModeFocus::FullscreenPayload => NavView {
            payload_scroll: if v.payload_scroll > 0 {
                v.payload_scroll - 1
            } else {
                0
            },
            ..v
        },
        ModeFocus::FullscreenResponse => NavView {
            response_scroll: if v.response_scroll > 0 {
                v.response_scroll - 1
            } else {
                0
            },
            ..v
        },
        }
    }
}

pub open spec fn spec_apply(v: NavView, e: NavEvent) -> NavView {
    match e {
        NavEvent::Next => spec_next(v),
        NavEvent::Previous => spec_previous(v),
        NavEvent::ToggleFullscreen => spec_toggle_fullscreen(v),
        NavEvent::FocusCycle => spec_focus_cycle(v),
        NavEvent::ScrollUp => spec_scroll_up(v),
        NavEvent::ScrollDown => spec_scroll_down(v),
    }
}

/// The content lookup map a sequence of display rows induces, keyed by the
/// row's id; a later row with the same id wins, as with repeated insertion.
pub open spec fn payload_map_of(rows: Seq<DisplayRow>) -> Map<i64, Option<String>>
    decreases rows.len(),
{
    if rows.len() == 0 {
        Map::empty()
    } else {
        payload_map_of(rows.drop_last()).insert(rows.last().id, rows.last().payload)
    }
}

pub open spec fn response_map_of(rows: Seq<DisplayRow>) -> Map<i64, Option<String>>
    decreases rows.len(),
{
    if rows.len() == 0 {
        Map::empty()
    } else {
        response_map_of(rows.drop_last()).insert(rows.last().id, rows.last().response)
    }
}

/// The per-session browser state: row ids in display order, their labels, the
/// content and response of each id, the selection, the mode/focus pair, and
/// the two scroll offsets.
pub struct BrowserState {
    keys: Vec<i64>,
    labels: Vec<String>,
    payloads: HashMap<i64, Option<String>>,
    responses: HashMap<i64, Option<String>>,
    selected: usize,
    mode: ModeFocus,
    payload_scroll: u16,
    response_scroll: u16,
}

/// True when the two states carry the same rows: navigation only ever moves
/// the selection, the mode and the scroll offsets.
pub open spec fn same_rows(a: BrowserState, b: BrowserState) -> bool {
    &&& a.spec_keys() == b.spec_keys()
    &&& a.spec_labels() == b.spec_labels()
    &&& a.spec_payloads() == b.spec_payloads()
    &&& a.spec_responses() == b.spec_responses()
}

impl BrowserState {
    pub closed spec fn wf(&self) -> bool {
        &&& self.labels@.len() == self.keys@.len()
        &&& self.keys@.len() == 0 ==> self.selected == 0
        &&& self.keys@.len() > 0 ==> (self.selected as int) < self.keys@.len()
    }

    /// The navigation-relevant abstraction of this state.
    pub closed spec fn nav(&self) -> NavView {
        NavView {
            n: self.keys@.len() as int,
            selected: self.selected as int,
            mode: self.mode,
            payload_scroll: self.payload_scroll as int,
            response_scroll: self.response_scroll as int,
        }
    }

    pub closed spec fn spec_keys(&self) -> Seq<i64> {
        self.keys@
    }

    pub closed spec fn spec_labels(&self) -> Seq<String> {
        self.labels@
    }

    pub closed spec fn spec_payloads(&self) -> Map<i64, Option<String>> {
        self.payloads@
    }

    pub closed spec fn spec_responses(&self) -> Map<i64, Option<String>> {
        self.responses@
    }

    /// A fresh session over the given rows: grid mode, first row selected,
    /// both panes unscrolled.
    pub fn new(rows: Vec<DisplayRow>) -> (s: BrowserState)
        ensures
            s.wf(),
            s.spec_keys() == rows@.map_values(|dr: DisplayRow| dr.id),
            s.spec_labels() == rows@.map_values(|dr: DisplayRow| dr.key),
            s.spec_payloads() == payload_map_of(rows@),
            s.spec_responses() == response_map_of(rows@),
            s.nav() == (NavView {
                n: rows@.len() as int,
                selected: 0,
                mode: ModeFocus::Grid,
                payload_scroll: 0,
                response_scroll: 0,
            }),
    {
        let ghost all = rows@;
        let mut keys: Vec<i64> = Vec::new();
        let mut labels: Vec<String> = Vec::new();
        let mut payloads: HashMap<i64, Option<String>> = HashMap::new();
        let mut responses: HashMap<i64, Option<String>> = HashMap::new();
        let mut i: usize = 0;
        while i < rows.len()
            invariant
                i <= all.len(),
                rows@ == all,
                keys@ == all.take(i as int).map_values(|dr: DisplayRow| dr.id),
                labels@ == all.take(i as int).map_values(|dr: DisplayRow| dr.key),
                payloads@ == payload_map_of(all.take(i as int)),
                responses@ == response_map_of(all.take(i as int)),
            decreases all.len() - i,
        {
            let row = &rows[i];
            keys.push(row.id);
            labels.push(row.key.clone());
            let payload = match &row.payload {
                Some(text) => Some(text.clone()),
                None => None,
            };
            let response = match &row.response {
                Some(text) => Some(text.clone()),
                None => None,
            };
            payloads.insert(row.id, payload);
            responses.insert(row.id, response);
            proof {
                assert(all.take(i + 1).drop_last() =~= all.take(i as int));
                assert(all.take(i + 1).last() == all[i as int]);
                assert(keys@ =~= all.take(i + 1).map_values(|dr: DisplayRow| dr.id));
                assert(labels@ =~= all.take(i + 1).map_values(|dr: DisplayRow| dr.key));
            }
            i = i + 1;
        }
        proof {
            assert(all.take(all.len() as int) =~= all);
        }
        BrowserState {
            keys,
            labels,
            payloads,
            responses,
            selected: 0,
            mode: ModeFocus::Grid,
            payload_scroll: 0,
            response_scroll: 0,
        }
    }

    /// Select the next row, wrapping past the end; only grid mode navigates,
    /// and an empty list leaves the selection alone.
    pub fn next(&mut self)
        requires
            old(self).wf(),
        ensures
            final(self).wf(),
            final(self).nav() == spec_next(old(self).nav()),
            same_rows(*old(self), *final(self)),
    {
        if self.mode == ModeFocus::Grid && self.keys.len() > 0 {
            if self.selected + 1 == self.keys.len() {
                self.selected = 0;
            } else {
                self.selected = self.selected + 1;
            }
        }
    }

    /// Select the previous row, wrapping past the start; only grid mode
    /// navigates, and an empty list leaves the selection alone.
    pub fn previous(&mut self)
        requires
            old(self).wf(),
        ensures
            final(self).wf(),
            final(self).nav() == spec_previous(old(self).nav()),
            same_rows(*old(self), *final(self)),
    {
        if self.mode == ModeFocus::Grid && self.keys.len() > 0 {
            if self.selected == 0 {
                self.selected = self.keys.len() - 1;
            } else {
                self.selected = self.selected - 1;
            }
        }
    }

    /// Switch between grid and fullscreen. Entering fullscreen focuses the
    /// payload pane; selection and scroll offsets are untouched.
    pub fn toggle_fullscreen(&mut self)
        requires
            old(self).wf(),
        ensures
            final(self).wf(),
            final(self).nav() == spec_toggle_fullscreen(old(self).nav()),
            same_rows(*old(self), *final(self)),
    {
        self.mode = match self.mode {
            ModeFocus::Grid => ModeFocus::FullscreenPayload,
            ModeFocus::FullscreenPayload => ModeFocus::Grid,
            ModeFocus::FullscreenResponse => ModeFocus::Grid,
        };
    }

    /// In fullscreen, move the focus to the other pane; a no-op in grid mode.
    pub fn focus_next(&mut self)
        requires
            old(self).wf(),
        ensures
            final(self).wf(),
            final(self).nav() == spec_focus_cycle(old(self).nav()),
            same_rows(*old(self), *final(self)),
    {
        self.mode = match self.mode {
            ModeFocus::Grid => ModeFocus::Grid,
            ModeFocus::FullscreenPayload => ModeFocus::FullscreenResponse,
            ModeFocus::FullscreenResponse => ModeFocus::FullscreenPayload,
        };
    }

    /// Scroll the focused pane down one line (saturating); a no-op in grid
    /// mode, where the list is focused, and over an empty listing.
    pub fn scroll_down(&mut self)
        requires
            old(self).wf(),
        ensures
            final(self).wf(),
            final(self).nav() == spec_scroll_down(old(self).nav()),
            same_rows(*old(self), *final(self)),
    {
        if self.keys.len() == 0 {
            return;
        }
        match self.mode {
            ModeFocus::Grid => {},
            ModeFocus::FullscreenPayload => {
                if self.payload_scroll < SCROLL_MAX {
                    self.payload_scroll = self.payload_scroll + 1;
                }
            },
            ModeFocus::FullscreenResponse => {
                if self.response_scroll < SCROLL_MAX {
                    self.response_scroll = self.response_scroll + 1;
                }
            },
        }
    }

    /// Scroll the focused pane up one line, clamped at the top; a no-op in
    /// grid mode, where the list is focused, and over an empty listing.
    pub fn scroll_up(&mut self)
        requires
            old(self).wf(),
        ensures
            final(self).wf(),
            final(self).nav() == spec_scroll_up(old(self).nav()),
            same_rows(*old(self), *final(self)),
    {
        if self.keys.len() == 0 {
            return;
        }
        match self.mode {
            ModeFocus::Grid => {},
            ModeFocus::FullscreenPayload => {
                if self.payload_scroll > 0 {
                    self.payload_scroll = self.payload_scroll - 1;
                }
            },
            ModeFocus::FullscreenResponse => {
                if self.response_scroll > 0 {
                    self.response_scroll = self.response_scroll - 1;
                }
            },
        }
    }

    /// Apply one decoded navigation event.
    pub fn apply(&mut self, e: NavEvent)
        requires
            old(self).wf(),
        ensures
            final(self).wf(),
            final(self).nav() == spec_apply(old(self).nav(), e),
            same_rows(*old(self), *final(self)),
    {
        match e {
            NavEvent::Next => self.next(),
            NavEvent::Previous => self.previous(),
            NavEvent::ToggleFullscreen => self.toggle_fullscreen(),
            NavEvent::FocusCycle => self.focus_next(),
            NavEvent::ScrollUp => self.scroll_up(),
            NavEvent::ScrollDown => self.scroll_down(),
        }
    }
}

/// A raw key press, as the input loop hands it over: a plain character, a
/// character with the control modifier held, or one of the special keys the
/// browser binds.
#[derive(Clone, Copy, Debug, PartialEq, Eq, Structural)]
pub enum Key {
    Char(char),
    CtrlChar(char),
    Enter,
    Tab,
    Other,
}

/// What a key press asks of the session: leave, navigate, or nothing.
#[derive(Clone, Copy, Debug, PartialEq, Eq, Structural)]
pub enum Command {
    Quit,
    Nav(NavEvent),
    Ignore,
}

/// The fixed key bindings: `q` quits, `j`/`k` select, enter toggles
/// fullscreen, tab cycles the focus, ctrl-u/ctrl-d scroll.
pub open spec fn spec_key_command(k: Key) -> Command {
    match k {
        Key::Char(c) => if c == 'q' {
            Command::Quit
        } else if c == 'j' {
            Command::Nav(NavEvent::Next)
        } else if c == 'k' {
            Command::Nav(NavEvent::Previous)
        } else {
            Command::Ignore
        },
        Key::CtrlChar(c) => if c == 'u' {
            Command::Nav(NavEvent::ScrollUp)
        } else if c == 'd' {
            Command::Nav(NavEvent::ScrollDown)
        } else {
            Command::Ignore
        },
        Key::Enter => Command::Nav(NavEvent::ToggleFullscreen),
        Key::Tab => Command::Nav(NavEvent::FocusCycle),
        Key::Other => Command::Ignore,
    }
}

/// Decode one key press into the command it is bound to.
pub fn key_to_command(k: Key) -> (c: Command)
    ensures
        c == spec_key_command(k),
{
    match k {
        Key::Char(c) => {
            if c == 'q' {
                Command::Quit
            } else if c == 'j' {
                Command::Nav(NavEvent::Next)
            } else if c == 'k' {
                Command::Nav(NavEvent::Previous)
            } else {
                Command::Ignore
            }
        },
        Key::CtrlChar(c) => {
            if c == 'u' {
                Command::Nav(NavEvent::ScrollUp)
            } else if c == 'd' {
                Command::Nav(NavEvent::ScrollDown)
            } else {
                Command::Ignore
            }
        },
        Key::Enter => Command::Nav(NavEvent::ToggleFullscreen),
        Key::Tab => Command::Nav(NavEvent::FocusCycle),
        Key::Other => Command::Ignore,
    }
}

/// The state after a whole sequence of navigation events, applied in order.
pub open spec fn spec_apply_all(v: NavView, es: Seq<NavEvent>) -> NavView
    decreases es.len(),
{
    if es.len() == 0 {
        v
    } else {
        spec_apply_all(spec_apply(v, es[0]), es.drop_first())
    }
}

/// Law: in grid mode, over a non-empty list, selecting the next row and then
/// the previous one (or the other way round) restores the state exactly,
/// wraparound at both ends included.
pub proof fn lemma_next_previous_inverse(v: NavView)
    requires
        v.mode is Grid,
        v.n >= 1,
        0 <= v.selected < v.n,
    ensures
        spec_previous(spec_next(v)) == v,
        spec_next(spec_previous(v)) == v,
{
}

/// Law: the selection moves as increment and decrement modulo the number of
/// rows.
pub proof fn lemma_navigation_is_modular(v: NavView)
    requires
        v.mode is Grid,
        v.n >= 1,
        0 <= v.selected < v.n,
    ensures
        spec_next(v).selected == (v.selected + 1) % v.n,
        spec_previous(v).selected == (v.selected - 1 + v.n) % v.n,
{
    assert(spec_next(v).selected == (v.selected + 1) % v.n) by (nonlinear_arith)
        requires
            v.n >= 1,
            0 <= v.selected < v.n,
            spec_next(v).selected == if v.selected + 1 == v.n { 0int } else { v.selected + 1 },
    ;
    assert(spec_previous(v).selected == (v.selected - 1 + v.n) % v.n) by (nonlinear_arith)
        requires
            v.n >= 1,
            0 <= v.selected < v.n,
            spec_previous(v).selected == if v.selected == 0 { v.n - 1 } else { v.selected - 1 },
    ;
}

/// Law: over an empty list, navigation and scrolling never change the state
/// and never fail.
pub proof fn lemma_empty_navigation_noop(v: NavView)
    requires
        v.n == 0,
    ensures
        spec_next(v) == v,
        spec_previous(v) == v,
        spec_scroll_up(v) == v,
        spec_scroll_down(v) == v,
{
}

/// Law: however the session is scrolled, the offsets never go below zero.
pub proof fn lemma_scroll_offsets_nonnegative(v: NavView, es: Seq<NavEvent>)
    requires
        v.payload_scroll >= 0,
        v.response_scroll >= 0,
    ensures
        spec_apply_all(v, es).payload_scroll >= 0,
        spec_apply_all(v, es).response_scroll >= 0,
    decreases es.len(),
{
    if es.len() > 0 {
        lemma_scroll_offsets_nonnegative(spec_apply(v, es[0]), es.drop_first());
    }
}

/// Law: toggling fullscreen twice restores the original mode, and the
/// selection and scroll offsets are untouched throughout.
pub proof fn lemma_toggle_fullscreen_twice(v: NavView)
    ensures
        is_fullscreen(spec_toggle_fullscreen(spec_toggle_fullscreen(v)).mode) == is_fullscreen(
            v.mode,
        ),
        spec_toggle_fullscreen(spec_toggle_fullscreen(v)).selected == v.selected,
        spec_toggle_fullscreen(spec_toggle_fullscreen(v)).n == v.n,
        spec_toggle_fullscreen(spec_toggle_fullscreen(v)).payload_scroll == v.payload_scroll,
        spec_toggle_fullscreen(spec_toggle_fullscreen(v)).response_scroll == v.response_scroll,
{
}

/// Law: cycling the focus is a no-op in grid mode; in fullscreen it strictly
/// alternates between the payload pane and the response pane.
pub proof fn lemma_focus_cycle_behaviour(v: NavView)
    ensures
        v.mode is Grid ==> spec_focus_cycle(v) == v,
        is_fullscreen(v.mode) ==> {
            &&& spec_focus_cycle(v).mode != v.mode
            &&& is_fullscreen(spec_focus_cycle(v).mode)
            &&& spec_focus_cycle(spec_focus_cycle(v)) == v
        },
{
}

/// What the payload pane shows: a fixed placeholder over an empty listing,
/// a distinct placeholder when the selected id is missing from the content
/// map (an internal-consistency fault), a marker for an absent or
/// unparseable payload, and otherwise the payload pretty-printed.
pub open spec fn spec_payload_pane_text(
    keys: Seq<i64>,
    payloads: Map<i64, Option<String>>,
    selected: int,
) -> Seq<char> {
    if keys.len() == 0 {
        "No requests"@
    } else if !payloads.contains_key(keys[selected]) {
        "<missing content>"@
    } else {
        match payloads[keys[selected]] {
            None => "<no content>"@,
            Some(text) => if json_wf(text@) {
                pretty_json(text@)
            } else {
                "<invalid json>"@
            },
        }
    }
}

/// What the response pane shows; as the payload pane, with its own markers.
pub open spec fn spec_response_pane_text(
    keys: Seq<i64>,
    responses: Map<i64, Option<String>>,
    selected: int,
) -> Seq<char> {
    if keys.len() == 0 {
        "No requests"@
    } else if !responses.contains_key(keys[selected]) {
        "<missing response>"@
    } else {
        match responses[keys[selected]] {
            None => "<no response>"@,
            Some(text) => if json_wf(text@) {
                pretty_json(text@)
            } else {
                "<invalid json>"@
            },
        }
    }
}

impl BrowserState {
    /// The text of the payload pane for the current selection.
    pub fn payload_pane(&self) -> (r: String)
        requires
            self.wf(),
        ensures
            r@ == spec_payload_pane_text(
                self.spec_keys(),
                self.spec_payloads(),
                self.nav().selected,
            ),
    {
        if self.keys.len() == 0 {
            return "No requests".to_owned();
        }
        let k = self.keys[self.selected];
        match self.payloads.get(&k) {
            None => "<missing content>".to_owned(),
            Some(stored) => match stored {
                None => "<no content>".to_owned(),
                Some(text) => match prettify_json(text.as_str()) {
                    Some(pretty) => pretty,
                    None => "<invalid json>".to_owned(),
                },
            },
        }
    }

    /// The text of the response pane for the current selection.
    pub fn response_pane(&self) -> (r: String)
        requires
            self.wf(),
        ensures
            r@ == spec_response_pane_text(
                self.spec_keys(),
                self.spec_responses(),
                self.nav().selected,
            ),
    {
        if self.keys.len() == 0 {
            return "No requests".to_owned();
        }
        let k = self.keys[self.selected];
        match self.responses.get(&k) {
            None => "<missing response>".to_owned(),
            Some(stored) => match stored {
                None => "<no response>".to_owned(),
                Some(text) => match prettify_json(text.as_str()) {
                    Some(pretty) => pretty,
                    None => "<invalid json>".to_owned(),
                },
            },
        }
    }
}

impl BrowserState {
    /// The display labels, in order.
    pub fn labels(&self) -> (r: &Vec<String>)
        ensures
            r@ == self.spec_labels(),
    {
        &self.labels
    }

    /// How many rows the session shows.
    pub fn row_count(&self) -> (n: usize)
        ensures
            n as int == self.nav().n,
    {
        self.keys.len()
    }

    /// The selected row's index.
    pub fn selected(&self) -> (n: usize)
        ensures
            n as int == self.nav().selected,
    {
        self.selected
    }

    /// The current mode/focus pair.
    pub fn mode(&self) -> (m: ModeFocus)
        ensures
            m == self.nav().mode,
    {
        self.mode
    }

    /// The payload pane's scroll offset.
    pub fn payload_scroll(&self) -> (n: u16)
        ensures
            n as int == self.nav().payload_scroll,
    {
        self.payload_scroll
    }

    /// The response pane's scroll offset.
    pub fn response_scroll(&self) -> (n: u16)
        ensures
            n as int == self.nav().response_scroll,
    {
        self.response_scroll
    }
}

/// Law: what the navigation view and well-formedness expose of a session:
/// the view's row count is the key count, well-formedness pins an empty
/// session's selection at zero and bounds a non-empty one's by the count,
/// and neither offset can be negative.
pub proof fn lemma_state_shape(s: &BrowserState)
    ensures
        s.nav().n == s.spec_keys().len(),
        s.nav().selected >= 0,
        s.nav().payload_scroll >= 0,
        s.nav().response_scroll >= 0,
        s.wf() ==> s.spec_labels().len() == s.spec_keys().len(),
        s.wf() && s.nav().n == 0 ==> s.nav().selected == 0,
        s.wf() && s.nav().n > 0 ==> s.nav().selected < s.nav().n,
{
}

/// No two rows share an id.
pub open spec fn distinct_row_ids(rows: Seq<DisplayRow>) -> bool {
    forall|i: int, j: int|
        0 <= i < rows.len() && 0 <= j < rows.len() && i != j ==> (#[trigger] rows[i]).id != (
        #[trigger] rows[j]).id
}

/// Law: over rows with distinct ids, the content maps a session is built
/// from give back exactly each row's payload and response; the panes of a
/// fresh session therefore show the selected row's own content.
pub proof fn lemma_maps_agree_with_rows(rows: Seq<DisplayRow>, i: int)
    requires
        distinct_row_ids(rows),
        0 <= i < rows.len(),
    ensures
        payload_map_of(rows).contains_key(rows[i].id),
        payload_map_of(rows)[rows[i].id] == rows[i].payload,
        response_map_of(rows).contains_key(rows[i].id),
        response_map_of(rows)[rows[i].id] == rows[i].response,
    decreases rows.len(),
{
    if rows.len() > 0 {
        let prefix = rows.drop_last();
        if i == rows.len() - 1 {
        } else {
            assert(distinct_row_ids(prefix)) by {
                assert forall|a: int, b: int|
                    0 <= a < prefix.len() && 0 <= b < prefix.len() && a != b implies (
                #[trigger] prefix[a]).id != (#[trigger] prefix[b]).id by {
                    assert(prefix[a] == rows[a] && prefix[b] == rows[b]);
                }
            }
            lemma_maps_agree_with_rows(prefix, i);
            assert(rows.last().id != rows[i].id);
        }
    }
}

} // verus!
