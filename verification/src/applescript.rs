//! The Apple Event bridge's decisions: which verb an event names, how an
//! object specifier resolves against the window/tab/terminal snapshot, and
//! what a property read or a `close` answers. The bridge itself reads and
//! writes `NSAppleEventDescriptor`s and posts the resulting events.

use vstd::prelude::*;

verus! {

/// A read-only projection of the window/tab/terminal tree that property
/// queries are answered from. Mirrors the AppleScript object hierarchy:
/// application, windows, tabs, terminals.
#[derive(Debug, Default, Clone, PartialEq)]
pub struct AppStateSnapshot {
    /// Whether the app currently holds OS focus (`application.frontmost`).
    pub frontmost: bool,
    /// The app version string (`application.version`).
    pub version: String,
    pub windows: Vec<WindowSnapshot>,
}

/// One logical window (an AppKit tab group).
#[derive(Debug, Clone, PartialEq)]
pub struct WindowSnapshot {
    /// Stable id of the logical window.
    pub id: u64,
    pub name: String,
    /// 1-based position among windows.
    pub index: usize,
    pub tabs: Vec<TabSnapshot>,
}

/// One native tab.
#[derive(Debug, Clone, PartialEq)]
pub struct TabSnapshot {
    /// Stable id: the native tab's window id.
    pub id: u64,
    pub name: String,
    /// 1-based position among the window's tabs.
    pub index: usize,
    /// Whether this is the app's currently focused tab.
    pub selected: bool,
    pub terminals: Vec<TerminalSnapshot>,
}

/// One split pane.
#[derive(Debug, Clone, PartialEq)]
pub struct TerminalSnapshot {
    /// Stable id: the pane id.
    pub id: u64,
    pub name: String,
    /// 1-based position among the tab's terminals.
    pub index: usize,
    /// Whether this is the focused pane within its tab.
    pub selected: bool,
    /// The shell's reported working directory, if any.
    pub cwd: Option<String>,
}

/// `errAEEventNotHandled`: unknown verb or action.
pub const EVENT_NOT_HANDLED: i32 = -1708;

/// `errAENoSuchObject`: the target object does not exist.
pub const NO_SUCH_OBJECT: i32 = -1728;

/// `errAEParamMissed`: a required parameter was missing or malformed.
pub const PARAM_MISSED: i32 = -1715;

/// Event class `noaX`: the app's own command suite.
pub const CLASS_NOA: u32 = 0x6E6F_6158;

/// Event class `core`: the core suite (`get`, `close`).
pub const CLASS_CORE: u32 = 0x636F_7265;

/// Event class `misc`: the miscellaneous suite (`activate`).
pub const CLASS_MISC: u32 = 0x6D69_7363;

/// Event id `nwin`.
pub const CMD_NEW_WINDOW: u32 = 0x6E77_696E;

/// Event id `ntab`.
pub const CMD_NEW_TAB: u32 = 0x6E74_6162;

/// Event id `splt`.
pub const CMD_SPLIT: u32 = 0x7370_6C74;

/// Event id `focs`.
pub const CMD_FOCUS: u32 = 0x666F_6373;

/// Event id `actw`.
pub const CMD_ACTIVATE_WINDOW: u32 = 0x6163_7477;

/// Event id `stab`.
pub const CMD_SELECT_TAB: u32 = 0x7374_6162;

/// Event id `inpt`.
pub const CMD_INPUT_TEXT: u32 = 0x696E_7074;

/// Event id `pact`.
pub const CMD_PERFORM_ACTION: u32 = 0x7061_6374;

/// Event id `getd`.
pub const EVT_GET_DATA: u32 = 0x6765_7464;

/// Event id `actv`.
pub const EVT_ACTIVATE: u32 = 0x6163_7476;

/// Event id `clos`.
pub const EVT_CLOSE: u32 = 0x636C_6F73;

/// Class code `cwin`.
pub const CLS_WINDOW: u32 = 0x6377_696E;

/// Class code `cTab`.
pub const CLS_TAB: u32 = 0x6354_6162;

/// Class code `cTrm`.
pub const CLS_TERMINAL: u32 = 0x6354_726D;

/// Property code `pnam`.
pub const PROP_NAME: u32 = 0x706E_616D;

/// Property code `ID  `.
pub const PROP_ID: u32 = 0x4944_2020;

/// Property code `pidx`.
pub const PROP_INDEX: u32 = 0x7069_6478;

/// Property code `selc`.
pub const PROP_SELECTED: u32 = 0x7365_6C63;

/// Property code `vers`.
pub const PROP_VERSION: u32 = 0x7665_7273;

/// Property code `pisf`.
pub const PROP_FRONTMOST: u32 = 0x7069_7366;

/// Property code `pwd `.
pub const PROP_WORKING_DIRECTORY: u32 = 0x7077_6420;

/// Split direction `rite`.
pub const DIR_RIGHT: u32 = 0x7269_7465;

/// Split direction `left`.
pub const DIR_LEFT: u32 = 0x6C65_6674;

/// Split direction `down`.
pub const DIR_DOWN: u32 = 0x646F_776E;

/// Split direction `up  `.
pub const DIR_UP: u32 = 0x7570_2020;

/// Descriptor type `null`: the application itself.
pub const TYPE_NULL: u32 = 0x6E75_6C6C;

/// Descriptor type `obj `: an object specifier.
pub const TYPE_OBJECT_SPECIFIER: u32 = 0x6F62_6A20;

/// Desired class `prop`: a property.
pub const TYPE_PROPERTY: u32 = 0x7072_6F70;

/// Key form `indx`: absolute (1-based) position.
pub const FORM_ABSOLUTE_POSITION: u32 = 0x696E_6478;

/// Key form `ID  `: unique id.
pub const FORM_UNIQUE_ID: u32 = 0x4944_2020;

/// Key form `prop`: property id.
pub const FORM_PROPERTY_ID: u32 = 0x7072_6F70;

/// The big-endian `FourCharCode` of four bytes.
pub open spec fn fourcc_value(b: Seq<u8>) -> int {
    b[0] * 0x100_0000 + b[1] * 0x1_0000 + b[2] * 0x100 + b[3]
}

/// Compile a four-byte ASCII code into a `FourCharCode`/`OSType`
/// (big-endian, as Apple Events store them).
pub fn fourcc(bytes: &[u8]) -> (code: u32)
    requires
        bytes@.len() == 4,
    ensures
        code == fourcc_value(bytes@),
{
    let a = bytes[0];
    let b = bytes[1];
    let c = bytes[2];
    let d = bytes[3];
    let code = ((a as u32) << 24) | ((b as u32) << 16) | ((c as u32) << 8) | (d as u32);
    assert(((a as u32) << 24) | ((b as u32) << 16) | ((c as u32) << 8) | (d as u32) == a
        * 0x100_0000u32 + b * 0x1_0000u32 + c * 0x100u32 + d) by (bit_vector);
    code
}

/// The verbs the bridge handles.
#[derive(Debug, Clone, Copy, PartialEq, Eq, Structural)]
pub enum AeVerb {
    GetData,
    Close,
    Activate,
    NewWindow,
    NewTab,
    Split,
    InputText,
    PerformAction,
    Focus,
    SelectTab,
    ActivateWindow,
}

/// The verb an event's class and id name, or `errAEEventNotHandled`.
pub open spec fn verb_of(class: u32, id: u32) -> Result<AeVerb, i32> {
    if class == CLASS_CORE {
        if id == EVT_GET_DATA {
            Ok(AeVerb::GetData)
        } else if id == EVT_CLOSE {
            Ok(AeVerb::Close)
        } else {
            Err(EVENT_NOT_HANDLED)
        }
    } else if class == CLASS_MISC && id == EVT_ACTIVATE {
        Ok(AeVerb::Activate)
    } else if class != CLASS_NOA {
        Err(EVENT_NOT_HANDLED)
    } else if id == CMD_NEW_WINDOW {
        Ok(AeVerb::NewWindow)
    } else if id == CMD_NEW_TAB {
        Ok(AeVerb::NewTab)
    } else if id == CMD_SPLIT {
        Ok(AeVerb::Split)
    } else if id == CMD_INPUT_TEXT {
        Ok(AeVerb::InputText)
    } else if id == CMD_PERFORM_ACTION {
        Ok(AeVerb::PerformAction)
    } else if id == CMD_FOCUS {
        Ok(AeVerb::Focus)
    } else if id == CMD_SELECT_TAB {
        Ok(AeVerb::SelectTab)
    } else if id == CMD_ACTIVATE_WINDOW {
        Ok(AeVerb::ActivateWindow)
    } else {
        Err(EVENT_NOT_HANDLED)
    }
}

/// Route one Apple Event by its class and id.
pub fn route_event(class: u32, id: u32) -> (r: Result<AeVerb, i32>)
    ensures
        r == verb_of(class, id),
{
    if class == CLASS_CORE {
        if id == EVT_GET_DATA {
            Ok(AeVerb::GetData)
        } else if id == EVT_CLOSE {
            Ok(AeVerb::Close)
        } else {
            Err(EVENT_NOT_HANDLED)
        }
    } else if class == CLASS_MISC && id == EVT_ACTIVATE {
        Ok(AeVerb::Activate)
    } else if class != CLASS_NOA {
        Err(EVENT_NOT_HANDLED)
    } else if id == CMD_NEW_WINDOW {
        Ok(AeVerb::NewWindow)
    } else if id == CMD_NEW_TAB {
        Ok(AeVerb::NewTab)
    } else if id == CMD_SPLIT {
        Ok(AeVerb::Split)
    } else if id == CMD_INPUT_TEXT {
        Ok(AeVerb::InputText)
    } else if id == CMD_PERFORM_ACTION {
        Ok(AeVerb::PerformAction)
    } else if id == CMD_FOCUS {
        Ok(AeVerb::Focus)
    } else if id == CMD_SELECT_TAB {
        Ok(AeVerb::SelectTab)
    } else if id == CMD_ACTIVATE_WINDOW {
        Ok(AeVerb::ActivateWindow)
    } else {
        Err(EVENT_NOT_HANDLED)
    }
}

/// The event class and id pairs the bridge registers.
pub open spec fn registered_events() -> Seq<(u32, u32)> {
    seq![
        (CLASS_CORE, EVT_GET_DATA),
        (CLASS_CORE, EVT_CLOSE),
        (CLASS_MISC, EVT_ACTIVATE),
        (CLASS_NOA, CMD_NEW_WINDOW),
        (CLASS_NOA, CMD_NEW_TAB),
        (CLASS_NOA, CMD_SPLIT),
        (CLASS_NOA, CMD_FOCUS),
        (CLASS_NOA, CMD_ACTIVATE_WINDOW),
        (CLASS_NOA, CMD_SELECT_TAB),
        (CLASS_NOA, CMD_INPUT_TEXT),
        (CLASS_NOA, CMD_PERFORM_ACTION),
    ]
}

/// Every `(event class, event id)` pair the bridge registers.
pub fn handler_events() -> (events: Vec<(u32, u32)>)
    ensures
        events@ == registered_events(),
{
    let mut events = vec![
        (CLASS_CORE, EVT_GET_DATA),
        (CLASS_CORE, EVT_CLOSE),
        (CLASS_MISC, EVT_ACTIVATE),
    ];
    events.push((CLASS_NOA, CMD_NEW_WINDOW));
    events.push((CLASS_NOA, CMD_NEW_TAB));
    events.push((CLASS_NOA, CMD_SPLIT));
    events.push((CLASS_NOA, CMD_FOCUS));
    events.push((CLASS_NOA, CMD_ACTIVATE_WINDOW));
    events.push((CLASS_NOA, CMD_SELECT_TAB));
    events.push((CLASS_NOA, CMD_INPUT_TEXT));
    events.push((CLASS_NOA, CMD_PERFORM_ACTION));
    assert(events@ =~= registered_events());
    events
}

/// The direction a `split` command names.
#[derive(Debug, Clone, Copy, PartialEq, Eq, Structural)]
pub enum SplitDirection {
    Right,
    Left,
    Down,
    Up,
}

/// The split direction an enumerator code names, or `errAEParamMissed`.
pub open spec fn direction_of(code: u32) -> Result<SplitDirection, i32> {
    if code == DIR_RIGHT {
        Ok(SplitDirection::Right)
    } else if code == DIR_LEFT {
        Ok(SplitDirection::Left)
    } else if code == DIR_DOWN {
        Ok(SplitDirection::Down)
    } else if code == DIR_UP {
        Ok(SplitDirection::Up)
    } else {
        Err(PARAM_MISSED)
    }
}

/// The split direction of a `split` command's enumerator.
pub fn split_direction(code: u32) -> (r: Result<SplitDirection, i32>)
    ensures
        r == direction_of(code),
{
    if code == DIR_RIGHT {
        Ok(SplitDirection::Right)
    } else if code == DIR_LEFT {
        Ok(SplitDirection::Left)
    } else if code == DIR_DOWN {
        Ok(SplitDirection::Down)
    } else if code == DIR_UP {
        Ok(SplitDirection::Up)
    } else {
        Err(PARAM_MISSED)
    }
}

/// How an element is picked from its container: by 1-based position or by
/// stable id.
#[derive(Debug, Clone, Copy, PartialEq, Eq, Structural)]
pub enum Sel2 {
    Index(i64),
    Id(i64),
}

/// A parsed object specifier (index and id forms only).
#[derive(Debug)]
pub enum Reference {
    App,
    Element { class: u32, selector: Sel2, container: Box<Reference> },
    Property { code: u32, container: Box<Reference> },
}

/// A resolved element: snapshot positions of a window, tab or terminal.
#[derive(Debug, Clone, Copy, PartialEq, Eq, Structural)]
pub enum Resolved {
    App,
    Window(usize),
    Tab(usize, usize),
    Terminal(usize, usize, usize),
}

/// The form of an object specifier, read from its `want` and `form` codes.
#[derive(Debug, Clone, Copy, PartialEq, Eq, Structural)]
pub enum SpecifierForm {
    Property,
    Index,
    Id,
    Unsupported,
}

/// The specifier form a desired class and key form name: a property when
/// either says so, else an index or id element, else unsupported.
pub open spec fn form_of(want: u32, form: u32) -> SpecifierForm {
    if want == TYPE_PROPERTY || form == FORM_PROPERTY_ID {
        SpecifierForm::Property
    } else if form == FORM_ABSOLUTE_POSITION {
        SpecifierForm::Index
    } else if form == FORM_UNIQUE_ID {
        SpecifierForm::Id
    } else {
        SpecifierForm::Unsupported
    }
}

/// Classify an object specifier by its desired class and key form.
pub fn specifier_form(want: u32, form: u32) -> (r: SpecifierForm)
    ensures
        r == form_of(want, form),
{
    if want == TYPE_PROPERTY || form == FORM_PROPERTY_ID {
        SpecifierForm::Property
    } else if form == FORM_ABSOLUTE_POSITION {
        SpecifierForm::Index
    } else if form == FORM_UNIQUE_ID {
        SpecifierForm::Id
    } else {
        SpecifierForm::Unsupported
    }
}

/// Whether an element with stable id and 1-based index `item` is the one
/// `sel` picks. Ids travel as raw 64-bit patterns, so a negative id is
/// reinterpreted, not rejected; a negative index picks nothing.
pub open spec fn key_matches(item: (u64, usize), sel: Sel2) -> bool {
    match sel {
        Sel2::Index(n) => 0 <= n && item.1 == n,
        Sel2::Id(id) => item.0 == id as u64,
    }
}

/// The first position at or after `from` whose key `sel` picks.
pub open spec fn first_match(items: Seq<(u64, usize)>, sel: Sel2, from: int) -> Option<usize>
    decreases items.len() - from,
{
    if from < 0 || from >= items.len() {
        None
    } else if key_matches(items[from], sel) {
        Some(from as usize)
    } else {
        first_match(items, sel, from + 1)
    }
}

/// The `(id, index)` keys of windows.
pub open spec fn window_keys(ws: Seq<WindowSnapshot>) -> Seq<(u64, usize)> {
    ws.map_values(|w: WindowSnapshot| (w.id, w.index))
}

/// The `(id, index)` keys of tabs.
pub open spec fn tab_keys(ts: Seq<TabSnapshot>) -> Seq<(u64, usize)> {
    ts.map_values(|t: TabSnapshot| (t.id, t.index))
}

/// The `(id, index)` keys of terminals.
pub open spec fn terminal_keys(ks: Seq<TerminalSnapshot>) -> Seq<(u64, usize)> {
    ks.map_values(|k: TerminalSnapshot| (k.id, k.index))
}

/// What `r` resolves to in `snap`: the application, or the snapshot
/// positions of the element it picks; `None` when its container does not
/// resolve, the element is missing, a tab's container is not a window, a
/// terminal's container is not a tab, or the class is unknown. A property
/// resolves to its container.
pub open spec fn resolve_spec(r: Reference, snap: AppStateSnapshot) -> Option<Resolved>
    decreases r,
{
    match r {
        Reference::App => Some(Resolved::App),
        Reference::Property { code, container } => resolve_spec(*container, snap),
        Reference::Element { class, selector, container } => match resolve_spec(*container, snap) {
            None => None,
            Some(c) => if class == CLS_WINDOW {
                match first_match(window_keys(snap.windows@), selector, 0) {
                    Some(i) => Some(Resolved::Window(i)),
                    None => None,
                }
            } else if class == CLS_TAB {
                match c {
                    Resolved::Window(w) => match first_match(
                        tab_keys(snap.windows@[w as int].tabs@),
                        selector,
                        0,
                    ) {
                        Some(i) => Some(Resolved::Tab(w, i)),
                        None => None,
                    },
                    _ => None,
                }
            } else if class == CLS_TERMINAL {
                match c {
                    Resolved::Tab(w, t) => match first_match(
                        terminal_keys(snap.windows@[w as int].tabs@[t as int].terminals@),
                        selector,
                        0,
                    ) {
                        Some(i) => Some(Resolved::Terminal(w, t, i)),
                        None => None,
                    },
                    _ => None,
                }
            } else {
                None
            },
        },
    }
}

/// The positions `res` names exist in `snap`.
pub open spec fn resolved_in(snap: AppStateSnapshot, res: Resolved) -> bool {
    match res {
        Resolved::App => true,
        Resolved::Window(w) => w < snap.windows@.len(),
        Resolved::Tab(w, t) => w < snap.windows@.len() && t < snap.windows@[w as int].tabs@.len(),
        Resolved::Terminal(w, t, k) => w < snap.windows@.len() && t
            < snap.windows@[w as int].tabs@.len() && k < snap.windows@[w as int].tabs@[t
            as int].terminals@.len(),
    }
}

proof fn lemma_first_match_in_bounds(items: Seq<(u64, usize)>, sel: Sel2, from: int)
    requires
        items.len() <= usize::MAX,
    ensures
        first_match(items, sel, from) matches Some(i) ==> from <= i < items.len() && key_matches(
            items[i as int],
            sel,
        ),
    decreases items.len() - from,
{
    if 0 <= from < items.len() && !key_matches(items[from], sel) {
        lemma_first_match_in_bounds(items, sel, from + 1);
    }
}

/// Whatever a reference resolves to exists in the snapshot.
pub proof fn lemma_resolved_in_snapshot(r: Reference, snap: AppStateSnapshot)
    ensures
        resolve_spec(r, snap) matches Some(res) ==> resolved_in(snap, res),
    decreases r,
{
    match r {
        Reference::App => {},
        Reference::Property { code, container } => {
            lemma_resolved_in_snapshot(*container, snap);
        },
        Reference::Element { class, selector, container } => {
            lemma_resolved_in_snapshot(*container, snap);
            assert(snap.windows.len() == snap.windows@.len());
            lemma_first_match_in_bounds(window_keys(snap.windows@), selector, 0);
            match resolve_spec(*container, snap) {
                Some(Resolved::Window(w)) => {
                    assert(snap.windows@[w as int].tabs.len() == snap.windows@[w as int].tabs@.len());
                    lemma_first_match_in_bounds(
                        tab_keys(snap.windows@[w as int].tabs@),
                        selector,
                        0,
                    );
                },
                Some(Resolved::Tab(w, t)) => {
                    let ks = snap.windows@[w as int].tabs@[t as int].terminals;
                    assert(ks.len() == ks@.len());
                    lemma_first_match_in_bounds(
                        terminal_keys(snap.windows@[w as int].tabs@[t as int].terminals@),
                        selector,
                        0,
                    );
                },
                _ => {},
            }
        },
    }
}

/// Pick the position of the first `(id, index)` pair `selector` matches:
/// index form is 1-based, id form matches the stable id.
pub fn pick(items: &[(u64, usize)], selector: &Sel2) -> (r: Option<usize>)
    ensures
        r == first_match(items@, *selector, 0),
{
    let mut i: usize = 0;
    while i < items.len()
        invariant
            i <= items@.len(),
            first_match(items@, *selector, 0) == first_match(items@, *selector, i as int),
        decreases items@.len() - i,
    {
        let (id, index) = items[i];
        let hit = match selector {
            Sel2::Index(n) => *n >= 0 && (index as i128) == (*n as i128),
            Sel2::Id(want) => id == (*want as u64),
        };
        if hit {
            return Some(i);
        }
        i = i + 1;
    }
    None
}

fn window_key_vec(ws: &Vec<WindowSnapshot>) -> (v: Vec<(u64, usize)>)
    ensures
        v@ == window_keys(ws@),
{
    let mut v: Vec<(u64, usize)> = Vec::new();
    let mut i: usize = 0;
    while i < ws.len()
        invariant
            i <= ws@.len(),
            v@ == window_keys(ws@.subrange(0, i as int)),
        decreases ws@.len() - i,
    {
        v.push((ws[i].id, ws[i].index));
        assert(window_keys(ws@.subrange(0, i + 1)) =~= window_keys(ws@.subrange(0, i as int)).push(
            (ws@[i as int].id, ws@[i as int].index),
        ));
        i = i + 1;
    }
    assert(ws@.subrange(0, ws@.len() as int) =~= ws@);
    v
}

fn tab_key_vec(ts: &Vec<TabSnapshot>) -> (v: Vec<(u64, usize)>)
    ensures
        v@ == tab_keys(ts@),
{
    let mut v: Vec<(u64, usize)> = Vec::new();
    let mut i: usize = 0;
    while i < ts.len()
        invariant
            i <= ts@.len(),
            v@ == tab_keys(ts@.subrange(0, i as int)),
        decreases ts@.len() - i,
    {
        v.push((ts[i].id, ts[i].index));
        assert(tab_keys(ts@.subrange(0, i + 1)) =~= tab_keys(ts@.subrange(0, i as int)).push(
            (ts@[i as int].id, ts@[i as int].index),
        ));
        i = i + 1;
    }
    assert(ts@.subrange(0, ts@.len() as int) =~= ts@);
    v
}

fn terminal_key_vec(ks: &Vec<TerminalSnapshot>) -> (v: Vec<(u64, usize)>)
    ensures
        v@ == terminal_keys(ks@),
{
    let mut v: Vec<(u64, usize)> = Vec::new();
    let mut i: usize = 0;
    while i < ks.len()
        invariant
            i <= ks@.len(),
            v@ == terminal_keys(ks@.subrange(0, i as int)),
        decreases ks@.len() - i,
    {
        v.push((ks[i].id, ks[i].index));
        assert(terminal_keys(ks@.subrange(0, i + 1)) =~= terminal_keys(
            ks@.subrange(0, i as int),
        ).push((ks@[i as int].id, ks@[i as int].index)));
        i = i + 1;
    }
    assert(ks@.subrange(0, ks@.len() as int) =~= ks@);
    v
}

/// Resolve a parsed element reference to concrete snapshot positions.
pub fn resolve(reference: &Reference, snapshot: &AppStateSnapshot) -> (r: Option<Resolved>)
    ensures
        r == resolve_spec(*reference, *snapshot),
        r matches Some(res) ==> resolved_in(*snapshot, res),
    decreases reference,
{
    proof {
        lemma_resolved_in_snapshot(*reference, *snapshot);
    }
    match reference {
        Reference::App => Some(Resolved::App),
        Reference::Property { code, container } => resolve(&**container, snapshot),
        Reference::Element { class, selector, container } => {
            let c = match resolve(&**container, snapshot) {
                Some(c) => c,
                None => return None,
            };
            if *class == CLS_WINDOW {
                let keys = window_key_vec(&snapshot.windows);
                match pick(keys.as_slice(), selector) {
                    Some(i) => Some(Resolved::Window(i)),
                    None => None,
                }
            } else if *class == CLS_TAB {
                match c {
                    Resolved::Window(w) => {
                        let keys = tab_key_vec(&snapshot.windows[w].tabs);
                        match pick(keys.as_slice(), selector) {
                            Some(i) => Some(Resolved::Tab(w, i)),
                            None => None,
                        }
                    },
                    _ => None,
                }
            } else if *class == CLS_TERMINAL {
                match c {
                    Resolved::Tab(w, t) => {
                        let keys = terminal_key_vec(&snapshot.windows[w].tabs[t].terminals);
                        match pick(keys.as_slice(), selector) {
                            Some(i) => Some(Resolved::Terminal(w, t, i)),
                            None => None,
                        }
                    },
                    _ => None,
                }
            } else {
                None
            }
        },
    }
}

/// Position of the first selected terminal at or after `from`.
pub open spec fn first_selected_terminal(ks: Seq<TerminalSnapshot>, from: int) -> Option<int>
    decreases ks.len() - from,
{
    if from < 0 || from >= ks.len() {
        None
    } else if ks[from].selected {
        Some(from)
    } else {
        first_selected_terminal(ks, from + 1)
    }
}

/// `(tab id, terminal id)` of a tab's selected terminal, falling back to its
/// first terminal; `errAENoSuchObject` for a tab without terminals.
pub open spec fn focus_target_spec(tab: TabSnapshot) -> Result<(u64, u64), i32> {
    match first_selected_terminal(tab.terminals@, 0) {
        Some(k) => Ok((tab.id, tab.terminals@[k].id)),
        None => if tab.terminals@.len() > 0 {
            Ok((tab.id, tab.terminals@[0].id))
        } else {
            Err(NO_SUCH_OBJECT)
        },
    }
}

/// `(tab id, terminal id)` of a tab's selected terminal (falling back to
/// its first terminal), for focus, close and select routing.
pub fn tab_focus_target(tab: &TabSnapshot) -> (r: Result<(u64, u64), i32>)
    ensures
        r == focus_target_spec(*tab),
{
    let mut k: usize = 0;
    while k < tab.terminals.len()
        invariant
            k <= tab.terminals@.len(),
            first_selected_terminal(tab.terminals@, 0) == first_selected_terminal(
                tab.terminals@,
                k as int,
            ),
        decreases tab.terminals@.len() - k,
    {
        if tab.terminals[k].selected {
            return Ok((tab.id, tab.terminals[k].id));
        }
        k = k + 1;
    }
    if tab.terminals.len() > 0 {
        Ok((tab.id, tab.terminals[0].id))
    } else {
        Err(NO_SUCH_OBJECT)
    }
}

/// The first selected tab among `ts` at or after `from`.
pub open spec fn selected_tab_in(ts: Seq<TabSnapshot>, from: int) -> Option<TabSnapshot>
    decreases ts.len() - from,
{
    if from < 0 || from >= ts.len() {
        None
    } else if ts[from].selected {
        Some(ts[from])
    } else {
        selected_tab_in(ts, from + 1)
    }
}

/// The first selected tab of the windows at or after `from`, in window
/// order.
pub open spec fn selected_tab_from(ws: Seq<WindowSnapshot>, from: int) -> Option<TabSnapshot>
    decreases ws.len() - from,
{
    if from < 0 || from >= ws.len() {
        None
    } else {
        match selected_tab_in(ws[from].tabs@, 0) {
            Some(t) => Some(t),
            None => selected_tab_from(ws, from + 1),
        }
    }
}

/// The focus target of the first selected tab, if there is one and it has
/// a terminal.
pub open spec fn frontmost_spec(snap: AppStateSnapshot) -> Option<(u64, u64)> {
    match selected_tab_from(snap.windows@, 0) {
        Some(t) => match focus_target_spec(t) {
            Ok(p) => Some(p),
            Err(_) => None,
        },
        None => None,
    }
}

fn selected_tab_of(ts: &Vec<TabSnapshot>) -> (r: Option<usize>)
    ensures
        match r {
            Some(j) => j < ts@.len() && selected_tab_in(ts@, 0) == Some(ts@[j as int]),
            None => selected_tab_in(ts@, 0) is None,
        },
{
    let mut j: usize = 0;
    while j < ts.len()
        invariant
            j <= ts@.len(),
            selected_tab_in(ts@, 0) == selected_tab_in(ts@, j as int),
        decreases ts@.len() - j,
    {
        if ts[j].selected {
            return Some(j);
        }
        j = j + 1;
    }
    None
}

/// The focused tab's focus target, for application-level `activate` and a
/// target-less `input text`.
pub fn frontmost_target(snapshot: &AppStateSnapshot) -> (r: Option<(u64, u64)>)
    ensures
        r == frontmost_spec(*snapshot),
{
    let mut w: usize = 0;
    while w < snapshot.windows.len()
        invariant
            w <= snapshot.windows@.len(),
            selected_tab_from(snapshot.windows@, 0) == selected_tab_from(
                snapshot.windows@,
                w as int,
            ),
        decreases snapshot.windows@.len() - w,
    {
        match selected_tab_of(&snapshot.windows[w].tabs) {
            Some(j) => {
                return match tab_focus_target(&snapshot.windows[w].tabs[j]) {
                    Ok(p) => Some(p),
                    Err(_) => None,
                };
            },
            None => {},
        }
        w = w + 1;
    }
    None
}

/// A property value read from the snapshot, before it becomes a reply
/// descriptor.
#[derive(Debug, Clone, PartialEq)]
pub enum PropertyValue {
    Text(String),
    /// A 64-bit stable id, sent as `typeSInt64`.
    Id(u64),
    /// A 1-based position, sent as a 32-bit integer.
    Index(u64),
    Flag(bool),
}

/// The mathematical value of a [`PropertyValue`].
pub enum PropertyView {
    Text(Seq<char>),
    Id(u64),
    Index(u64),
    Flag(bool),
}

impl View for PropertyValue {
    type V = PropertyView;

    open spec fn view(&self) -> PropertyView {
        match self {
            PropertyValue::Text(s) => PropertyView::Text(s@),
            PropertyValue::Id(v) => PropertyView::Id(*v),
            PropertyValue::Index(v) => PropertyView::Index(*v),
            PropertyValue::Flag(b) => PropertyView::Flag(*b),
        }
    }
}

/// What a property specifier reads from `snap`: the application's name,
/// version and frontmost flag; a window's name, id and index; a tab's name,
/// id, index and selected flag; a terminal's name, id and working directory
/// (empty when unknown). Everything else, and anything that does not
/// resolve, is `errAENoSuchObject`.
pub open spec fn property_spec(r: Reference, snap: AppStateSnapshot) -> Result<PropertyView, i32> {
    match r {
        Reference::Property { code, container } => match resolve_spec(*container, snap) {
            None => Err(NO_SUCH_OBJECT),
            Some(Resolved::App) => if code == PROP_NAME {
                Ok(PropertyView::Text("Noa"@))
            } else if code == PROP_VERSION {
                Ok(PropertyView::Text(snap.version@))
            } else if code == PROP_FRONTMOST {
                Ok(PropertyView::Flag(snap.frontmost))
            } else {
                Err(NO_SUCH_OBJECT)
            },
            Some(Resolved::Window(w)) => {
                let win = snap.windows@[w as int];
                if code == PROP_NAME {
                    Ok(PropertyView::Text(win.name@))
                } else if code == PROP_ID {
                    Ok(PropertyView::Id(win.id))
                } else if code == PROP_INDEX {
                    Ok(PropertyView::Index(win.index as u64))
                } else {
                    Err(NO_SUCH_OBJECT)
                }
            },
            Some(Resolved::Tab(w, t)) => {
                let tab = snap.windows@[w as int].tabs@[t as int];
                if code == PROP_NAME {
                    Ok(PropertyView::Text(tab.name@))
                } else if code == PROP_ID {
                    Ok(PropertyView::Id(tab.id))
                } else if code == PROP_INDEX {
                    Ok(PropertyView::Index(tab.index as u64))
                } else if code == PROP_SELECTED {
                    Ok(PropertyView::Flag(tab.selected))
                } else {
                    Err(NO_SUCH_OBJECT)
                }
            },
            Some(Resolved::Terminal(w, t, k)) => {
                let term = snap.windows@[w as int].tabs@[t as int].terminals@[k as int];
                if code == PROP_NAME {
                    Ok(PropertyView::Text(term.name@))
                } else if code == PROP_ID {
                    Ok(PropertyView::Id(term.id))
                } else if code == PROP_WORKING_DIRECTORY {
                    Ok(PropertyView::Text(
                        match term.cwd {
                            Some(d) => d@,
                            None => Seq::empty(),
                        },
                    ))
                } else {
                    Err(NO_SUCH_OBJECT)
                }
            },
        },
        _ => Err(NO_SUCH_OBJECT),
    }
}

/// Read a property specifier's value from the snapshot. Only the
/// properties the dictionary declares are answered.
pub fn read_property(reference: &Reference, snapshot: &AppStateSnapshot) -> (r: Result<
    PropertyValue,
    i32,
>)
    ensures
        match r {
            Ok(v) => property_spec(*reference, *snapshot) == Ok::<PropertyView, i32>(v@),
            Err(e) => property_spec(*reference, *snapshot) == Err::<PropertyView, i32>(e),
        },
{
    let (code, container) = match reference {
        Reference::Property { code, container } => (*code, container),
        _ => return Err(NO_SUCH_OBJECT),
    };
    let resolved = match resolve(&**container, snapshot) {
        Some(x) => x,
        None => return Err(NO_SUCH_OBJECT),
    };
    match resolved {
        Resolved::App => {
            if code == PROP_NAME {
                let name = "Noa";
                Ok(PropertyValue::Text(name.to_owned()))
            } else if code == PROP_VERSION {
                Ok(PropertyValue::Text(snapshot.version.clone()))
            } else if code == PROP_FRONTMOST {
                Ok(PropertyValue::Flag(snapshot.frontmost))
            } else {
                Err(NO_SUCH_OBJECT)
            }
        },
        Resolved::Window(w) => {
            let win = &snapshot.windows[w];
            if code == PROP_NAME {
                Ok(PropertyValue::Text(win.name.clone()))
            } else if code == PROP_ID {
                Ok(PropertyValue::Id(win.id))
            } else if code == PROP_INDEX {
                Ok(PropertyValue::Index(win.index as u64))
            } else {
                Err(NO_SUCH_OBJECT)
            }
        },
        Resolved::Tab(w, t) => {
            let tab = &snapshot.windows[w].tabs[t];
            if code == PROP_NAME {
                Ok(PropertyValue::Text(tab.name.clone()))
            } else if code == PROP_ID {
                Ok(PropertyValue::Id(tab.id))
            } else if code == PROP_INDEX {
                Ok(PropertyValue::Index(tab.index as u64))
            } else if code == PROP_SELECTED {
                Ok(PropertyValue::Flag(tab.selected))
            } else {
                Err(NO_SUCH_OBJECT)
            }
        },
        Resolved::Terminal(w, t, k) => {
            let term = &snapshot.windows[w].tabs[t].terminals[k];
            if code == PROP_NAME {
                Ok(PropertyValue::Text(term.name.clone()))
            } else if code == PROP_ID {
                Ok(PropertyValue::Id(term.id))
            } else if code == PROP_WORKING_DIRECTORY {
                match &term.cwd {
                    Some(d) => Ok(PropertyValue::Text(d.clone())),
                    None => Ok(PropertyValue::Text(String::new())),
                }
            } else {
                Err(NO_SUCH_OBJECT)
            }
        },
    }
}

/// A property reads the field of the very object its container resolves
/// to: a terminal's name and id are that terminal's own (not its tab's or
/// window's), a tab's name, id, index and selected flag are the tab's, and a
/// window's name, id and index are the window's.
pub proof fn lemma_property_reads_the_resolved_object(
    container: Reference,
    snap: AppStateSnapshot,
)
    ensures
        resolve_spec(container, snap) matches Some(Resolved::Terminal(w, t, k)) ==> {
            let term = snap.windows@[w as int].tabs@[t as int].terminals@[k as int];
            &&& property_spec(
                Reference::Property { code: PROP_NAME, container: Box::new(container) },
                snap,
            ) == Ok::<PropertyView, i32>(PropertyView::Text(term.name@))
            &&& property_spec(
                Reference::Property { code: PROP_ID, container: Box::new(container) },
                snap,
            ) == Ok::<PropertyView, i32>(PropertyView::Id(term.id))
        },
        resolve_spec(container, snap) matches Some(Resolved::Tab(w, t)) ==> {
            let tab = snap.windows@[w as int].tabs@[t as int];
            &&& property_spec(
                Reference::Property { code: PROP_NAME, container: Box::new(container) },
                snap,
            ) == Ok::<PropertyView, i32>(PropertyView::Text(tab.name@))
            &&& property_spec(
                Reference::Property { code: PROP_ID, container: Box::new(container) },
                snap,
            ) == Ok::<PropertyView, i32>(PropertyView::Id(tab.id))
            &&& property_spec(
                Reference::Property { code: PROP_INDEX, container: Box::new(container) },
                snap,
            ) == Ok::<PropertyView, i32>(PropertyView::Index(tab.index as u64))
            &&& property_spec(
                Reference::Property { code: PROP_SELECTED, container: Box::new(container) },
                snap,
            ) == Ok::<PropertyView, i32>(PropertyView::Flag(tab.selected))
        },
        resolve_spec(container, snap) matches Some(Resolved::Window(w)) ==> {
            let win = snap.windows@[w as int];
            &&& property_spec(
                Reference::Property { code: PROP_NAME, container: Box::new(container) },
                snap,
            ) == Ok::<PropertyView, i32>(PropertyView::Text(win.name@))
            &&& property_spec(
                Reference::Property { code: PROP_ID, container: Box::new(container) },
                snap,
            ) == Ok::<PropertyView, i32>(PropertyView::Id(win.id))
            &&& property_spec(
                Reference::Property { code: PROP_INDEX, container: Box::new(container) },
                snap,
            ) == Ok::<PropertyView, i32>(PropertyView::Index(win.index as u64))
        },
{
}

/// Picking a terminal by its id and reading its name gives that terminal's
/// own name, whenever no earlier terminal of the tab shares the id.
pub proof fn lemma_name_of_terminal_by_id(
    container: Reference,
    snap: AppStateSnapshot,
    w: usize,
    t: usize,
    k: usize,
)
    requires
        resolve_spec(container, snap) == Some(Resolved::Tab(w, t)),
        k < snap.windows@[w as int].tabs@[t as int].terminals@.len(),
        forall|j: int|
            0 <= j < k ==> snap.windows@[w as int].tabs@[t as int].terminals@[j].id
                != snap.windows@[w as int].tabs@[t as int].terminals@[k as int].id,
    ensures
        property_spec(
            Reference::Property {
                code: PROP_NAME,
                container: Box::new(
                    Reference::Element {
                        class: CLS_TERMINAL,
                        selector: Sel2::Id(
                            snap.windows@[w as int].tabs@[t as int].terminals@[k as int].id as i64,
                        ),
                        container: Box::new(container),
                    },
                ),
            },
            snap,
        ) == Ok::<PropertyView, i32>(
            PropertyView::Text(snap.windows@[w as int].tabs@[t as int].terminals@[k as int].name@),
        ),
{
    lemma_terminal_id_round_trip(container, snap, w, t, k);
}

/// The `(tab id, terminal id)` a terminal specifier names.
pub open spec fn terminal_target_spec(r: Reference, snap: AppStateSnapshot) -> Result<(u64, u64), i32> {
    match resolve_spec(r, snap) {
        Some(Resolved::Terminal(w, t, k)) => Ok(
            (
                snap.windows@[w as int].tabs@[t as int].id,
                snap.windows@[w as int].tabs@[t as int].terminals@[k as int].id,
            ),
        ),
        _ => Err(NO_SUCH_OBJECT),
    }
}

/// Resolve a terminal specifier to `(tab id, terminal id)`; anything that
/// is not a resolvable terminal is `errAENoSuchObject`.
pub fn terminal_target(reference: &Reference, snapshot: &AppStateSnapshot) -> (r: Result<
    (u64, u64),
    i32,
>)
    ensures
        r == terminal_target_spec(*reference, *snapshot),
{
    match resolve(reference, snapshot) {
        Some(Resolved::Terminal(w, t, k)) => {
            let tab = &snapshot.windows[w].tabs[t];
            Ok((tab.id, tab.terminals[k].id))
        },
        _ => Err(NO_SUCH_OBJECT),
    }
}

/// The focus target of the tab a tab specifier names.
pub open spec fn tab_target_spec(r: Reference, snap: AppStateSnapshot) -> Result<(u64, u64), i32> {
    match resolve_spec(r, snap) {
        Some(Resolved::Tab(w, t)) => focus_target_spec(snap.windows@[w as int].tabs@[t as int]),
        _ => Err(NO_SUCH_OBJECT),
    }
}

/// Resolve a tab specifier to the tab's focus target (`select tab`).
pub fn tab_target(reference: &Reference, snapshot: &AppStateSnapshot) -> (r: Result<(u64, u64), i32>)
    ensures
        r == tab_target_spec(*reference, *snapshot),
{
    match resolve(reference, snapshot) {
        Some(Resolved::Tab(w, t)) => tab_focus_target(&snapshot.windows[w].tabs[t]),
        _ => Err(NO_SUCH_OBJECT),
    }
}

/// The focus target of the first tab of the window a window specifier
/// names.
pub open spec fn window_target_spec(r: Reference, snap: AppStateSnapshot) -> Result<(u64, u64), i32> {
    match resolve_spec(r, snap) {
        Some(Resolved::Window(w)) => if snap.windows@[w as int].tabs@.len() > 0 {
            focus_target_spec(snap.windows@[w as int].tabs@[0])
        } else {
            Err(NO_SUCH_OBJECT)
        },
        _ => Err(NO_SUCH_OBJECT),
    }
}

/// Resolve a window specifier to its first tab's focus target
/// (`activate window`).
pub fn window_target(reference: &Reference, snapshot: &AppStateSnapshot) -> (r: Result<
    (u64, u64),
    i32,
>)
    ensures
        r == window_target_spec(*reference, *snapshot),
{
    match resolve(reference, snapshot) {
        Some(Resolved::Window(w)) => {
            if snapshot.windows[w].tabs.len() > 0 {
                tab_focus_target(&snapshot.windows[w].tabs[0])
            } else {
                Err(NO_SUCH_OBJECT)
            }
        },
        _ => Err(NO_SUCH_OBJECT),
    }
}

/// What a `close` does: close one pane, or focus a tab or window's target
/// and close that tab or window.
#[derive(Debug, Clone, Copy, PartialEq, Eq, Structural)]
pub enum ClosePlan {
    ClosePane { window_id: u64, pane_id: u64 },
    CloseTab { window_id: u64, pane_id: u64 },
    CloseWindow { window_id: u64, pane_id: u64 },
}

/// The granularity of a `close` follows the resolved class: a terminal
/// closes its pane, a tab its tab, a window its window (after focusing the
/// first tab's target); the application and anything unresolved is
/// `errAENoSuchObject`.
pub open spec fn close_spec(r: Reference, snap: AppStateSnapshot) -> Result<ClosePlan, i32> {
    match resolve_spec(r, snap) {
        Some(Resolved::Terminal(w, t, k)) => Ok(
            ClosePlan::ClosePane {
                window_id: snap.windows@[w as int].tabs@[t as int].id,
                pane_id: snap.windows@[w as int].tabs@[t as int].terminals@[k as int].id,
            },
        ),
        Some(Resolved::Tab(w, t)) => match focus_target_spec(
            snap.windows@[w as int].tabs@[t as int],
        ) {
            Ok((a, b)) => Ok(ClosePlan::CloseTab { window_id: a, pane_id: b }),
            Err(e) => Err(e),
        },
        Some(Resolved::Window(w)) => if snap.windows@[w as int].tabs@.len() > 0 {
            match focus_target_spec(snap.windows@[w as int].tabs@[0]) {
                Ok((a, b)) => Ok(ClosePlan::CloseWindow { window_id: a, pane_id: b }),
                Err(e) => Err(e),
            }
        } else {
            Err(NO_SUCH_OBJECT)
        },
        _ => Err(NO_SUCH_OBJECT),
    }
}

/// Decide what a standard `close` of `reference` does.
pub fn close_plan(reference: &Reference, snapshot: &AppStateSnapshot) -> (r: Result<ClosePlan, i32>)
    ensures
        r == close_spec(*reference, *snapshot),
{
    match resolve(reference, snapshot) {
        Some(Resolved::Terminal(w, t, k)) => {
            let tab = &snapshot.windows[w].tabs[t];
            Ok(ClosePlan::ClosePane { window_id: tab.id, pane_id: tab.terminals[k].id })
        },
        Some(Resolved::Tab(w, t)) => match tab_focus_target(&snapshot.windows[w].tabs[t]) {
            Ok((a, b)) => Ok(ClosePlan::CloseTab { window_id: a, pane_id: b }),
            Err(e) => Err(e),
        },
        Some(Resolved::Window(w)) => {
            if snapshot.windows[w].tabs.len() > 0 {
                match tab_focus_target(&snapshot.windows[w].tabs[0]) {
                    Ok((a, b)) => Ok(ClosePlan::CloseWindow { window_id: a, pane_id: b }),
                    Err(e) => Err(e),
                }
            } else {
                Err(NO_SUCH_OBJECT)
            }
        },
        _ => Err(NO_SUCH_OBJECT),
    }
}

proof fn lemma_first_match_id(items: Seq<(u64, usize)>, p: int, from: int)
    requires
        0 <= from <= p < items.len(),
        items.len() <= usize::MAX,
        forall|j: int| 0 <= j < p ==> items[j].0 != items[p].0,
    ensures
        first_match(items, Sel2::Id(items[p].0 as i64), from) == Some(p as usize),
    decreases p - from,
{
    let v = items[p].0;
    assert((v as i64) as u64 == v) by (bit_vector);
    if from < p {
        lemma_first_match_id(items, p, from + 1);
    }
}

/// The little-endian bytes of `v`: how a 64-bit id travels in a descriptor,
/// its bit pattern verbatim.
pub open spec fn le_bytes_of(v: u64) -> Seq<u8> {
    seq![
        v as u8,
        (v >> 8) as u8,
        (v >> 16) as u8,
        (v >> 24) as u8,
        (v >> 32) as u8,
        (v >> 40) as u8,
        (v >> 48) as u8,
        (v >> 56) as u8,
    ]
}

/// The unsigned value of the first eight bytes of `b`, little-endian.
pub open spec fn le_value(b: Seq<u8>) -> u64 {
    (b[0] as u64) | ((b[1] as u64) << 8u64) | ((b[2] as u64) << 16u64) | ((b[3] as u64) << 24u64) | ((
    b[4] as u64) << 32u64) | ((b[5] as u64) << 40u64) | ((b[6] as u64) << 48u64) | ((b[7] as u64)
        << 56u64)
}

/// What an integer descriptor reads as: the first eight bytes of its 64-bit
/// coercion (two's complement) when the coercion gave at least eight, else
/// its 32-bit value.
pub open spec fn int64_of(coerced: Option<Seq<u8>>, int32: i32) -> i64 {
    match coerced {
        Some(b) => if b.len() >= 8 {
            le_value(b) as i64
        } else {
            int32 as i64
        },
        None => int32 as i64,
    }
}

/// Read an integer descriptor as 64-bit, given the bytes of its coercion to
/// a signed 64-bit descriptor (`None` when the coercion failed) and its
/// 32-bit value: ids beyond `i32` survive, small integers still read.
pub fn int64_value(coerced: Option<&[u8]>, int32: i32) -> (v: i64)
    ensures
        v == int64_of(
            match coerced {
                Some(b) => Some(b@),
                None => None,
            },
            int32,
        ),
{
    match coerced {
        Some(b) => {
            if b.len() >= 8 {
                let value: u64 = (b[0] as u64) | ((b[1] as u64) << 8u64) | ((b[2] as u64) << 16u64)
                    | ((b[3] as u64) << 24u64) | ((b[4] as u64) << 32u64) | ((b[5] as u64) << 40u64)
                    | ((b[6] as u64) << 48u64) | ((b[7] as u64) << 56u64);
                return value as i64;
            }
            int32 as i64
        },
        None => int32 as i64,
    }
}

/// The bytes of a 64-bit integer descriptor holding `value`.
pub fn int64_bytes(value: u64) -> (b: Vec<u8>)
    ensures
        b@ == le_bytes_of(value),
{
    let b = vec![
        value as u8,
        (value >> 8u64) as u8,
        (value >> 16u64) as u8,
        (value >> 24u64) as u8,
        (value >> 32u64) as u8,
        (value >> 40u64) as u8,
        (value >> 48u64) as u8,
        (value >> 56u64) as u8,
    ];
    assert(b@ =~= le_bytes_of(value));
    b
}

/// An id written as a 64-bit descriptor reads back as the same bit pattern,
/// so `get id of tab` and `tab id <N>` round-trip.
pub proof fn lemma_int64_descriptor_round_trip(v: u64, int32: i32)
    ensures
        int64_of(Some(le_bytes_of(v)), int32) == v as i64,
{
    let b = le_bytes_of(v);
    assert(b[0] == v as u8 && b[1] == (v >> 8) as u8 && b[2] == (v >> 16) as u8 && b[3] == (v >> 24) as u8
        && b[4] == (v >> 32) as u8 && b[5] == (v >> 40) as u8 && b[6] == (v >> 48) as u8 && b[7] == (v
        >> 56) as u8);
    let (b0, b1, b2, b3, b4, b5, b6, b7) = (b[0], b[1], b[2], b[3], b[4], b[5], b[6], b[7]);
    assert(((b0 as u64) | ((b1 as u64) << 8u64) | ((b2 as u64) << 16u64) | ((b3 as u64) << 24u64) | ((
    b4 as u64) << 32u64) | ((b5 as u64) << 40u64) | ((b6 as u64) << 48u64) | ((b7 as u64) << 56u64))
        == v) by (bit_vector)
        requires
            b0 == v as u8,
            b1 == (v >> 8) as u8,
            b2 == (v >> 16) as u8,
            b3 == (v >> 24) as u8,
            b4 == (v >> 32) as u8,
            b5 == (v >> 40) as u8,
            b6 == (v >> 48) as u8,
            b7 == (v >> 56) as u8,
    ;
}

/// A tab's id, as read back by `get id of tab`, picks that same tab again:
/// `tab id <N>` of the tab's window resolves to the tab whose id is `N`,
/// whenever no earlier tab of the window shares the id.
pub proof fn lemma_tab_id_round_trip(container: Reference, snap: AppStateSnapshot, w: usize, t: usize)
    requires
        resolve_spec(container, snap) == Some(Resolved::Window(w)),
        t < snap.windows@[w as int].tabs@.len(),
        forall|j: int|
            0 <= j < t ==> snap.windows@[w as int].tabs@[j].id != snap.windows@[w as int].tabs@[t as int].id,
    ensures
        resolve_spec(
            Reference::Element {
                class: CLS_TAB,
                selector: Sel2::Id(snap.windows@[w as int].tabs@[t as int].id as i64),
                container: Box::new(container),
            },
            snap,
        ) == Some(Resolved::Tab(w, t)),
{
    let ts = snap.windows@[w as int].tabs;
    assert(ts.len() == ts@.len());
    let keys = tab_keys(ts@);
    assert forall|j: int| 0 <= j < t implies keys[j].0 != keys[t as int].0 by {}
    lemma_first_match_id(keys, t as int, 0);
}

/// A terminal's id, as read back by `get id of terminal`, picks that same
/// terminal again within its tab, whenever no earlier terminal of the tab
/// shares the id.
pub proof fn lemma_terminal_id_round_trip(
    container: Reference,
    snap: AppStateSnapshot,
    w: usize,
    t: usize,
    k: usize,
)
    requires
        resolve_spec(container, snap) == Some(Resolved::Tab(w, t)),
        k < snap.windows@[w as int].tabs@[t as int].terminals@.len(),
        forall|j: int|
            0 <= j < k ==> snap.windows@[w as int].tabs@[t as int].terminals@[j].id
                != snap.windows@[w as int].tabs@[t as int].terminals@[k as int].id,
    ensures
        resolve_spec(
            Reference::Element {
                class: CLS_TERMINAL,
                selector: Sel2::Id(snap.windows@[w as int].tabs@[t as int].terminals@[k as int].id as i64),
                container: Box::new(container),
            },
            snap,
        ) == Some(Resolved::Terminal(w, t, k)),
{
    let ks = snap.windows@[w as int].tabs@[t as int].terminals;
    assert(ks.len() == ks@.len());
    let keys = terminal_keys(ks@);
    assert forall|j: int| 0 <= j < k implies keys[j].0 != keys[k as int].0 by {}
    lemma_first_match_id(keys, k as int, 0);
}

} // verus!
