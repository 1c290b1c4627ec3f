//! Display refresh rates through the wlroots output management protocol:
//! the state that the protocol's events build, and what is read from it.
use crate::utils::text::{
    ends_with, int_dec, lemma_ends_with_concat, lemma_not_ends_with, millis_text, push_int,
    push_millis,
};
use vstd::prelude::*;

verus! {

/// A display mode: size in pixels, refresh rate in mHz.
#[derive(Clone, Copy, Debug, PartialEq, Eq, Structural)]
pub struct WlMode {
    pub width: i32,
    pub height: i32,
    pub refresh: i32,
    pub preferred: bool,
}

impl Default for WlMode {
    fn default() -> (r: WlMode)
        ensures
            r == default_mode(),
    {
        WlMode { width: 0, height: 0, refresh: 0, preferred: false }
    }
}

pub open spec fn default_mode() -> WlMode {
    WlMode { width: 0, height: 0, refresh: 0, preferred: false }
}

/// An output head: a monitor. Modes are named by their object ids; the
/// transform is the `wl_output` transform value.
#[derive(Debug)]
pub struct WlHead {
    pub name: String,
    pub description: String,
    pub make: String,
    pub model: String,
    pub enabled: bool,
    pub current_mode: Option<u32>,
    pub x: i32,
    pub y: i32,
    pub transform: u32,
}

pub struct WlHeadView {
    pub name: Seq<char>,
    pub description: Seq<char>,
    pub make: Seq<char>,
    pub model: Seq<char>,
    pub enabled: bool,
    pub current_mode: Option<u32>,
    pub x: i32,
    pub y: i32,
    pub transform: u32,
}

impl View for WlHead {
    type V = WlHeadView;

    open spec fn view(&self) -> WlHeadView {
        WlHeadView {
            name: self.name@,
            description: self.description@,
            make: self.make@,
            model: self.model@,
            enabled: self.enabled,
            current_mode: self.current_mode,
            x: self.x,
            y: self.y,
            transform: self.transform,
        }
    }
}

pub open spec fn default_head() -> WlHeadView {
    WlHeadView {
        name: Seq::<char>::empty(),
        description: Seq::<char>::empty(),
        make: Seq::<char>::empty(),
        model: Seq::<char>::empty(),
        enabled: false,
        current_mode: None,
        x: 0,
        y: 0,
        transform: 0,
    }
}

impl Default for WlHead {
    fn default() -> (r: WlHead)
        ensures
            r@ == default_head(),
    {
        WlHead {
            name: String::new(),
            description: String::new(),
            make: String::new(),
            model: String::new(),
            enabled: false,
            current_mode: None,
            x: 0,
            y: 0,
            transform: 0,
        }
    }
}

/// A mode and the head it belongs to.
#[derive(Clone, Copy, Debug, PartialEq, Eq, Structural)]
pub struct ModeEntry {
    pub head: u32,
    pub mode: WlMode,
}

/// Heads and modes by object id, in the order they were announced.
pub struct DisplayStateView {
    pub head_ids: Seq<u32>,
    pub heads: Seq<WlHeadView>,
    pub mode_ids: Seq<u32>,
    pub modes: Seq<ModeEntry>,
    pub done: bool,
    pub config_success: Option<bool>,
}

/// First position of `k` in `ids` at or after `i`.
pub open spec fn index_from(ids: Seq<u32>, k: u32, i: int) -> Option<int>
    decreases ids.len() - i,
{
    if i < 0 || i >= ids.len() {
        None
    } else if ids[i] == k {
        Some(i)
    } else {
        index_from(ids, k, i + 1)
    }
}

pub open spec fn index_of(ids: Seq<u32>, k: u32) -> Option<int> {
    index_from(ids, k, 0)
}

pub proof fn lemma_index_from(ids: Seq<u32>, k: u32, i: int)
    requires
        0 <= i,
    ensures
        index_from(ids, k, i) matches Some(j) ==> i <= j < ids.len() && ids[j] == k,
        index_from(ids, k, i) is None ==> forall|j: int| i <= j < ids.len() ==> ids[j] != k,
    decreases ids.len() - i,
{
    if i < ids.len() && ids[i] != k {
        lemma_index_from(ids, k, i + 1);
    }
}

pub proof fn lemma_index_found(ids: Seq<u32>, k: u32, i: int, j: int)
    requires
        0 <= i <= j < ids.len(),
        ids[j] == k,
        forall|m: int| i <= m < j ==> ids[m] != k,
    ensures
        index_from(ids, k, i) == Some(j),
    decreases j - i,
{
    if i < j {
        lemma_index_found(ids, k, i + 1, j);
    }
}

pub proof fn lemma_index_none(ids: Seq<u32>, k: u32, i: int)
    requires
        0 <= i,
        forall|m: int| i <= m < ids.len() ==> ids[m] != k,
    ensures
        index_from(ids, k, i) is None,
    decreases ids.len() - i,
{
    if i < ids.len() {
        lemma_index_none(ids, k, i + 1);
    }
}

/// Position of `k` in `ids`.
pub fn find_id(ids: &Vec<u32>, k: u32) -> (r: Option<usize>)
    ensures
        match r {
            Some(j) => index_of(ids@, k) == Some(j as int),
            None => index_of(ids@, k) is None,
        },
{
    let mut i: usize = 0;
    while i < ids.len()
        invariant
            i <= ids.len(),
            forall|m: int| 0 <= m < i ==> ids@[m] != k,
        decreases ids.len() - i,
    {
        if ids[i] == k {
            proof {
                lemma_index_found(ids@, k, 0, i as int);
            }
            return Some(i);
        }
        i = i + 1;
    }
    proof {
        lemma_index_none(ids@, k, 0);
    }
    None
}

pub open spec fn no_duplicates(ids: Seq<u32>) -> bool {
    forall|i: int, j: int| 0 <= i < j < ids.len() ==> ids[i] != ids[j]
}

pub open spec fn heads_view(v: Seq<WlHead>) -> Seq<WlHeadView> {
    Seq::new(v.len(), |i: int| v[i]@)
}

/// What the compositor has told about its outputs: heads and modes keyed by
/// object id, each id once (see `wf`). They are kept as id and record
/// vectors in the order the compositor announced them, so that the rate
/// report, the active-display lines and the mode a rate change picks follow
/// that order; a hash map's walk order would leave them unspecified.
pub struct DisplayState {
    head_ids: Vec<u32>,
    heads: Vec<WlHead>,
    mode_ids: Vec<u32>,
    modes: Vec<ModeEntry>,
    /// The manager sent its `done` event.
    pub done: bool,
    /// The compositor's answer to the last configuration, once it came.
    pub config_success: Option<bool>,
}

impl View for DisplayState {
    type V = DisplayStateView;

    closed spec fn view(&self) -> DisplayStateView {
        DisplayStateView {
            head_ids: self.head_ids@,
            heads: heads_view(self.heads@),
            mode_ids: self.mode_ids@,
            modes: self.modes@,
            done: self.done,
            config_success: self.config_success,
        }
    }
}

/// Ids are unique and each id has its record.
pub open spec fn wf_view(s: DisplayStateView) -> bool {
    &&& s.head_ids.len() == s.heads.len()
    &&& s.mode_ids.len() == s.modes.len()
    &&& no_duplicates(s.head_ids)
    &&& no_duplicates(s.mode_ids)
}

/// An event of the output manager.
pub enum ManagerEvent {
    /// A new head with this object id.
    Head { head: u32 },
    /// All current heads and modes were sent.
    Done,
    /// Any other event.
    Other,
}

/// An event of a head.
pub enum HeadEvent {
    Name { name: String },
    Description { description: String },
    Make { make: String },
    Model { model: String },
    /// A new mode of this head, with this object id.
    Mode { mode: u32 },
    Enabled { enabled: i32 },
    CurrentMode { mode: u32 },
    Position { x: i32, y: i32 },
    Transform { transform: u32 },
    /// Any other event (the scale is kept by the caller).
    Other,
}

pub enum HeadEventView {
    Name { name: Seq<char> },
    Description { description: Seq<char> },
    Make { make: Seq<char> },
    Model { model: Seq<char> },
    Mode { mode: u32 },
    Enabled { enabled: i32 },
    CurrentMode { mode: u32 },
    Position { x: i32, y: i32 },
    Transform { transform: u32 },
    Other,
}

impl View for HeadEvent {
    type V = HeadEventView;

    open spec fn view(&self) -> HeadEventView {
        match self {
            HeadEvent::Name { name } => HeadEventView::Name { name: name@ },
            HeadEvent::Description { description } => HeadEventView::Description {
                description: description@,
            },
            HeadEvent::Make { make } => HeadEventView::Make { make: make@ },
            HeadEvent::Model { model } => HeadEventView::Model { model: model@ },
            HeadEvent::Mode { mode } => HeadEventView::Mode { mode: *mode },
            HeadEvent::Enabled { enabled } => HeadEventView::Enabled { enabled: *enabled },
            HeadEvent::CurrentMode { mode } => HeadEventView::CurrentMode { mode: *mode },
            HeadEvent::Position { x, y } => HeadEventView::Position { x: *x, y: *y },
            HeadEvent::Transform { transform } => HeadEventView::Transform { transform: *transform },
            HeadEvent::Other => HeadEventView::Other,
        }
    }
}

/// An event of a mode.
#[derive(Clone, Copy, Debug, PartialEq, Eq, Structural)]
pub enum ModeEvent {
    Size { width: i32, height: i32 },
    Refresh { refresh: i32 },
    Preferred,
    Other,
}

/// The compositor's answer to a configuration.
#[derive(Clone, Copy, Debug, PartialEq, Eq, Structural)]
pub enum ConfigEvent {
    Succeeded,
    Failed,
    Cancelled,
}

/// `k` bound to `v`: replaced in place when present, else appended.
pub open spec fn put<T>(ids: Seq<u32>, vals: Seq<T>, k: u32, v: T) -> (Seq<u32>, Seq<T>) {
    match index_of(ids, k) {
        Some(i) => (ids, vals.update(i, v)),
        None => (ids.push(k), vals.push(v)),
    }
}

/// The state after a manager event.
pub open spec fn after_manager_event(s: DisplayStateView, e: ManagerEvent) -> DisplayStateView {
    match e {
        ManagerEvent::Head { head } => {
            let p = put(s.head_ids, s.heads, head, default_head());
            DisplayStateView { head_ids: p.0, heads: p.1, ..s }
        },
        ManagerEvent::Done => DisplayStateView { done: true, ..s },
        ManagerEvent::Other => s,
    }
}

/// A head record after one of its events.
pub open spec fn head_after(h: WlHeadView, e: HeadEventView) -> WlHeadView {
    match e {
        HeadEventView::Name { name } => WlHeadView { name, ..h },
        HeadEventView::Description { description } => WlHeadView { description, ..h },
        HeadEventView::Make { make } => WlHeadView { make, ..h },
        HeadEventView::Model { model } => WlHeadView { model, ..h },
        HeadEventView::Enabled { enabled } => WlHeadView { enabled: enabled != 0, ..h },
        HeadEventView::CurrentMode { mode } => WlHeadView { current_mode: Some(mode), ..h },
        HeadEventView::Position { x, y } => WlHeadView { x, y, ..h },
        HeadEventView::Transform { transform } => WlHeadView { transform, ..h },
        _ => h,
    }
}

/// The state after an event of head `head`: ignored for an unknown head;
/// a `Mode` event registers a fresh mode of the head.
pub open spec fn after_head_event(s: DisplayStateView, head: u32, e: HeadEventView) -> DisplayStateView {
    match index_of(s.head_ids, head) {
        None => s,
        Some(i) => match e {
            HeadEventView::Mode { mode } => {
                let p = put(s.mode_ids, s.modes, mode, ModeEntry { head, mode: default_mode() });
                DisplayStateView { mode_ids: p.0, modes: p.1, ..s }
            },
            _ => DisplayStateView { heads: s.heads.update(i, head_after(s.heads[i], e)), ..s },
        },
    }
}

/// A mode after one of its events.
pub open spec fn mode_after(m: WlMode, e: ModeEvent) -> WlMode {
    match e {
        ModeEvent::Size { width, height } => WlMode { width, height, ..m },
        ModeEvent::Refresh { refresh } => WlMode { refresh, ..m },
        ModeEvent::Preferred => WlMode { preferred: true, ..m },
        ModeEvent::Other => m,
    }
}

/// The state after an event of mode `mode`: ignored for an unknown mode.
pub open spec fn after_mode_event(s: DisplayStateView, mode: u32, e: ModeEvent) -> DisplayStateView {
    match index_of(s.mode_ids, mode) {
        None => s,
        Some(i) => DisplayStateView {
            modes: s.modes.update(i, ModeEntry { head: s.modes[i].head, mode: mode_after(s.modes[i].mode, e) }),
            ..s
        },
    }
}

/// The state after the compositor answered a configuration.
pub open spec fn after_config_event(s: DisplayStateView, e: ConfigEvent) -> DisplayStateView {
    DisplayStateView { config_success: Some(e == ConfigEvent::Succeeded), ..s }
}

impl DisplayState {
    pub closed spec fn wf(&self) -> bool {
        &&& self.head_ids@.len() == self.heads@.len()
        &&& self.mode_ids@.len() == self.modes@.len()
        &&& no_duplicates(self.head_ids@)
        &&& no_duplicates(self.mode_ids@)
    }

    pub proof fn lemma_wf(&self)
        requires
            self.wf(),
        ensures
            wf_view(self@),
    {
    }

    /// Nothing known yet.
    pub fn new() -> (r: DisplayState)
        ensures
            r.wf(),
            r@.head_ids.len() == 0,
            r@.heads.len() == 0,
            r@.mode_ids.len() == 0,
            r@.modes.len() == 0,
            !r@.done,
            r@.config_success is None,
    {
        let r = DisplayState {
            head_ids: Vec::new(),
            heads: Vec::new(),
            mode_ids: Vec::new(),
            modes: Vec::new(),
            done: false,
            config_success: None,
        };
        assert(heads_view(r.heads@) =~= Seq::<WlHeadView>::empty());
        r
    }

    /// Applies an event of the output manager.
    pub fn on_manager_event(&mut self, e: ManagerEvent)
        requires
            old(self).wf(),
        ensures
            final(self).wf(),
            final(self)@ == after_manager_event(old(self)@, e),
    {
        match e {
            ManagerEvent::Head { head } => {
                let h = WlHead::default();
                match find_id(&self.head_ids, head) {
                    Some(i) => {
                        proof {
                            lemma_index_from(self.head_ids@, head, 0);
                        }
                        self.heads.set(i, h);
                        assert(heads_view(self.heads@) =~= heads_view(old(self).heads@).update(
                            i as int,
                            default_head(),
                        ));
                    },
                    None => {
                        proof {
                            lemma_index_from(self.head_ids@, head, 0);
                        }
                        self.head_ids.push(head);
                        self.heads.push(h);
                        assert(heads_view(self.heads@) =~= heads_view(old(self).heads@).push(
                            default_head(),
                        ));
                    },
                }
            },
            ManagerEvent::Done => {
                self.done = true;
            },
            ManagerEvent::Other => {},
        }
        assert(self@ == after_manager_event(old(self)@, e));
    }

    /// Applies an event of head `head`.
    pub fn on_head_event(&mut self, head: u32, e: HeadEvent)
        requires
            old(self).wf(),
        ensures
            final(self).wf(),
            final(self)@ == after_head_event(old(self)@, head, e@),
    {
        let ghost ev = e@;
        let i = match find_id(&self.head_ids, head) {
            Some(i) => i,
            None => {
                return;
            },
        };
        proof {
            lemma_index_from(self.head_ids@, head, 0);
        }
        match e {
            HeadEvent::Mode { mode } => {
                let entry = ModeEntry { head, mode: WlMode::default() };
                match find_id(&self.mode_ids, mode) {
                    Some(j) => {
                        proof {
                            lemma_index_from(self.mode_ids@, mode, 0);
                        }
                        self.modes.set(j, entry);
                    },
                    None => {
                        proof {
                            lemma_index_from(self.mode_ids@, mode, 0);
                        }
                        self.mode_ids.push(mode);
                        self.modes.push(entry);
                    },
                }
                assert(self@ == after_head_event(old(self)@, head, ev));
                return;
            },
            _ => {},
        }
        let ghost old_heads = heads_view(self.heads@);
        let mut h = WlHead::default();
        std::mem::swap(&mut h, &mut self.heads[i]);
        let ghost before = h@;
        match e {
            HeadEvent::Name { name } => {
                h.name = name;
            },
            HeadEvent::Description { description } => {
                h.description = description;
            },
            HeadEvent::Make { make } => {
                h.make = make;
            },
            HeadEvent::Model { model } => {
                h.model = model;
            },
            HeadEvent::Enabled { enabled } => {
                h.enabled = enabled != 0;
            },
            HeadEvent::CurrentMode { mode } => {
                h.current_mode = Some(mode);
            },
            HeadEvent::Position { x, y } => {
                h.x = x;
                h.y = y;
            },
            HeadEvent::Transform { transform } => {
                h.transform = transform;
            },
            _ => {},
        }
        assert(h@ == head_after(before, ev));
        self.heads.set(i, h);
        assert(heads_view(self.heads@) =~= old_heads.update(i as int, head_after(before, ev)));
        assert(self@ == after_head_event(old(self)@, head, ev));
    }

    /// Applies an event of mode `mode`.
    pub fn on_mode_event(&mut self, mode: u32, e: ModeEvent)
        requires
            old(self).wf(),
        ensures
            final(self).wf(),
            final(self)@ == after_mode_event(old(self)@, mode, e),
    {
        match find_id(&self.mode_ids, mode) {
            Some(j) => {
                proof {
                    lemma_index_from(self.mode_ids@, mode, 0);
                }
                let entry = self.modes[j];
                let m = entry.mode;
                let m2 = match e {
                    ModeEvent::Size { width, height } => WlMode { width, height, ..m },
                    ModeEvent::Refresh { refresh } => WlMode { refresh, ..m },
                    ModeEvent::Preferred => WlMode { preferred: true, ..m },
                    ModeEvent::Other => m,
                };
                self.modes.set(j, ModeEntry { head: entry.head, mode: m2 });
            },
            None => {},
        }
        assert(self@ == after_mode_event(old(self)@, mode, e));
    }

    /// Records the compositor's answer to a configuration.
    pub fn on_config_event(&mut self, e: ConfigEvent)
        requires
            old(self).wf(),
        ensures
            final(self).wf(),
            final(self)@ == after_config_event(old(self)@, e),
    {
        self.config_success = Some(e == ConfigEvent::Succeeded);
        assert(self@ == after_config_event(old(self)@, e));
    }

    /// The head with object id `id`.
    pub fn head(&self, id: u32) -> (r: Option<&WlHead>)
        requires
            self.wf(),
        ensures
            match index_of(self@.head_ids, id) {
                Some(i) => r matches Some(h) && h@ == self@.heads[i],
                None => r is None,
            },
    {
        match find_id(&self.head_ids, id) {
            Some(i) => {
                proof {
                    lemma_index_from(self.head_ids@, id, 0);
                }
                Some(&self.heads[i])
            },
            None => None,
        }
    }

    /// The mode with object id `id`.
    pub fn mode(&self, id: u32) -> (r: Option<ModeEntry>)
        requires
            self.wf(),
        ensures
            match index_of(self@.mode_ids, id) {
                Some(i) => r == Some(self@.modes[i]),
                None => r is None,
            },
    {
        match find_id(&self.mode_ids, id) {
            Some(i) => {
                proof {
                    lemma_index_from(self.mode_ids@, id, 0);
                }
                Some(self.modes[i])
            },
            None => None,
        }
    }
}

/// The mode entry with object id `id`.
pub open spec fn mode_of(s: DisplayStateView, id: u32) -> Option<ModeEntry> {
    match index_of(s.mode_ids, id) {
        Some(i) => Some(s.modes[i]),
        None => None,
    }
}

/// The summary line of an active head in its current mode.
pub open spec fn info_line(h: WlHeadView, m: WlMode) -> Seq<char> {
    h.name + " ("@ + h.make + "): "@ + int_dec(m.width as int) + "x"@ + int_dec(m.height as int)
        + " px, "@ + millis_text(m.refresh as int) + " Hz"@
}

/// The summary of a head: one line when it is enabled and its current mode
/// is known.
pub open spec fn head_info(s: DisplayStateView, h: WlHeadView) -> Seq<Seq<char>> {
    if h.enabled {
        match h.current_mode {
            Some(id) => match mode_of(s, id) {
                Some(e) => seq![info_line(h, e.mode)],
                None => Seq::<Seq<char>>::empty(),
            },
            None => Seq::<Seq<char>>::empty(),
        }
    } else {
        Seq::<Seq<char>>::empty()
    }
}

/// The summaries of the first `k` heads.
pub open spec fn active_info(s: DisplayStateView, k: int) -> Seq<Seq<char>>
    decreases k,
{
    if k <= 0 {
        Seq::<Seq<char>>::empty()
    } else {
        active_info(s, k - 1) + head_info(s, s.heads[k - 1])
    }
}

fn push_head_mode(r: &mut String, head: &WlHead, m: WlMode)
    ensures
        final(r)@ == old(r)@ + head.name@ + " ("@ + head.make@ + "): "@ + int_dec(m.width as int) + "x"@
            + int_dec(m.height as int) + " px, "@ + millis_text(m.refresh as int),
{
    r.append(head.name.as_str());
    r.append(" (");
    r.append(head.make.as_str());
    r.append("): ");
    push_int(r, m.width as i64);
    r.append("x");
    push_int(r, m.height as i64);
    r.append(" px, ");
    push_millis(r, m.refresh);
}

/// One line per enabled head whose current mode is known: name, make, size
/// and refresh rate (`{:.3}` Hz).
pub fn get_active_display_info(state: &DisplayState) -> (r: Vec<String>)
    requires
        state.wf(),
    ensures
        r.deep_view() == active_info(state@, state@.heads.len() as int),
{
    let mut r: Vec<String> = Vec::new();
    let mut i: usize = 0;
    while i < state.heads.len()
        invariant
            state.wf(),
            i <= state.heads@.len(),
            r.deep_view() == active_info(state@, i as int),
        decreases state.heads@.len() - i,
    {
        let h = &state.heads[i];
        assert(state@.heads[i as int] == h@);
        let ghost before = r.deep_view();
        if h.enabled {
            if let Some(id) = h.current_mode {
                if let Some(e) = state.mode(id) {
                    let mut line = String::new();
                    push_head_mode(&mut line, h, e.mode);
                    line.append(" Hz");
                    r.push(line);
                    assert(r.deep_view() =~= before + seq![info_line(h@, e.mode)]);
                }
            }
        }
        assert(r.deep_view() =~= active_info(state@, i + 1));
        i = i + 1;
    }
    proof {
        state.lemma_wf();
    }
    r
}

/// First enabled head at or after `k`.
pub open spec fn first_enabled(heads: Seq<WlHeadView>, k: int) -> Option<int>
    decreases heads.len() - k,
{
    if k < 0 || k >= heads.len() {
        None
    } else if heads[k].enabled {
        Some(k)
    } else {
        first_enabled(heads, k + 1)
    }
}

/// A refresh rate within 5 Hz of the target (both in mHz).
pub open spec fn near(refresh: i32, target: i32) -> bool {
    -5000 < refresh - target < 5000
}

/// First mode at or after `k` of head `head` whose rate is near `target`.
pub open spec fn first_near_mode(modes: Seq<ModeEntry>, head: u32, target: i32, k: int) -> Option<int>
    decreases modes.len() - k,
{
    if k < 0 || k >= modes.len() {
        None
    } else if modes[k].head == head && near(modes[k].mode.refresh, target) {
        Some(k)
    } else {
        first_near_mode(modes, head, target, k + 1)
    }
}

/// The head and mode a refresh-rate change applies: the first enabled head,
/// and its first mode within 5 Hz of the target.
pub open spec fn spec_select_mode(s: DisplayStateView, target: i32) -> Option<(u32, u32)> {
    match first_enabled(s.heads, 0) {
        Some(i) => match first_near_mode(s.modes, s.head_ids[i], target, 0) {
            Some(j) => Some((s.head_ids[i], s.mode_ids[j])),
            None => None,
        },
        None => None,
    }
}

proof fn lemma_first_enabled(heads: Seq<WlHeadView>, k: int, j: int)
    requires
        0 <= k <= j <= heads.len(),
        forall|m: int| k <= m < j ==> !heads[m].enabled,
    ensures
        first_enabled(heads, k) == first_enabled(heads, j),
    decreases j - k,
{
    if k < j {
        lemma_first_enabled(heads, k + 1, j);
    }
}

proof fn lemma_first_near(modes: Seq<ModeEntry>, head: u32, target: i32, k: int, j: int)
    requires
        0 <= k <= j <= modes.len(),
        forall|m: int| k <= m < j ==> !(modes[m].head == head && near(modes[m].mode.refresh, target)),
    ensures
        first_near_mode(modes, head, target, k) == first_near_mode(modes, head, target, j),
    decreases j - k,
{
    if k < j {
        lemma_first_near(modes, head, target, k + 1, j);
    }
}

proof fn lemma_first_enabled_found(heads: Seq<WlHeadView>, k: int)
    ensures
        first_enabled(heads, k) matches Some(i) ==> k <= i < heads.len() && heads[i].enabled,
    decreases heads.len() - k,
{
    if 0 <= k < heads.len() && !heads[k].enabled {
        lemma_first_enabled_found(heads, k + 1);
    }
}

proof fn lemma_first_near_found(modes: Seq<ModeEntry>, head: u32, target: i32, k: int)
    ensures
        first_near_mode(modes, head, target, k) matches Some(j) ==> k <= j < modes.len()
            && modes[j].head == head && near(modes[j].mode.refresh, target),
    decreases modes.len() - k,
{
    if 0 <= k < modes.len() && !(modes[k].head == head && near(modes[k].mode.refresh, target)) {
        lemma_first_near_found(modes, head, target, k + 1);
    }
}

/// A refresh-rate change applies a mode of an enabled head, and that mode's
/// rate is within 5 Hz of the target.
pub proof fn lemma_selected_mode_is_near(s: DisplayStateView, target: i32)
    requires
        wf_view(s),
    ensures
        spec_select_mode(s, target) matches Some((h, m)) ==> exists|i: int, j: int|
            0 <= i < s.heads.len() && 0 <= j < s.modes.len() && s.head_ids[i] == h
                && s.heads[i].enabled && s.mode_ids[j] == m && s.modes[j].head == h && near(
                s.modes[j].mode.refresh,
                target,
            ),
{
    lemma_first_enabled_found(s.heads, 0);
    if let Some(i) = first_enabled(s.heads, 0) {
        lemma_first_near_found(s.modes, s.head_ids[i], target, 0);
    }
}

/// The head and mode to configure for a target refresh rate in mHz.
pub fn select_refresh_mode(state: &DisplayState, target_mhz: i32) -> (r: Option<(u32, u32)>)
    requires
        state.wf(),
    ensures
        r == spec_select_mode(state@, target_mhz),
{
    let ghost s = state@;
    let mut i: usize = 0;
    while i < state.heads.len() && !state.heads[i].enabled
        invariant
            state.wf(),
            s == state@,
            i <= state.heads@.len(),
            forall|m: int| 0 <= m < i ==> !s.heads[m].enabled,
        decreases state.heads@.len() - i,
    {
        assert(s.heads[i as int] == state.heads@[i as int]@);
        i = i + 1;
    }
    proof {
        lemma_first_enabled(s.heads, 0, i as int);
    }
    if i == state.heads.len() {
        return None;
    }
    assert(s.heads[i as int] == state.heads@[i as int]@);
    let head = state.head_ids[i];
    assert(first_enabled(s.heads, i as int) == Some(i as int));
    let mut j: usize = 0;
    while j < state.modes.len()
        invariant
            state.wf(),
            s == state@,
            j <= state.modes@.len(),
            i < s.heads.len(),
            first_enabled(s.heads, 0) == Some(i as int),
            head == s.head_ids[i as int],
            forall|m: int| 0 <= m < j ==> !(s.modes[m].head == head && near(s.modes[m].mode.refresh, target_mhz)),
        decreases state.modes@.len() - j,
    {
        let e = state.modes[j];
        let diff: i64 = (e.mode.refresh as i64) - (target_mhz as i64);
        if e.head == head && -5000 < diff && diff < 5000 {
            proof {
                lemma_first_near(s.modes, head, target_mhz, 0, j as int);
            }
            return Some((head, state.mode_ids[j]));
        }
        j = j + 1;
    }
    proof {
        lemma_first_near(s.modes, head, target_mhz, 0, j as int);
    }
    None
}

/// `a` is listed no later than `b`: larger width, then height, then
/// refresh rate first.
pub open spec fn key_ge(a: WlMode, b: WlMode) -> bool {
    a.width > b.width || (a.width == b.width && (a.height > b.height || (a.height == b.height
        && a.refresh >= b.refresh)))
}

fn key_ge_exec(a: WlMode, b: WlMode) -> (r: bool)
    ensures
        r == key_ge(a, b),
{
    a.width > b.width || (a.width == b.width && (a.height > b.height || (a.height == b.height
        && a.refresh >= b.refresh)))
}

/// Inserts `x` after every element that is listed no later than it.
pub open spec fn insert_desc(sorted: Seq<(u32, WlMode)>, x: (u32, WlMode)) -> Seq<(u32, WlMode)>
    decreases sorted.len(),
{
    if sorted.len() == 0 {
        seq![x]
    } else if key_ge(sorted.last().1, x.1) {
        sorted.push(x)
    } else {
        insert_desc(sorted.drop_last(), x).push(sorted.last())
    }
}

/// Stable sort by `key_ge` (insertion sort).
pub open spec fn sort_desc(s: Seq<(u32, WlMode)>) -> Seq<(u32, WlMode)>
    decreases s.len(),
{
    if s.len() == 0 {
        Seq::<(u32, WlMode)>::empty()
    } else {
        insert_desc(sort_desc(s.drop_last()), s.last())
    }
}

pub open spec fn sorted_desc(s: Seq<(u32, WlMode)>) -> bool {
    forall|i: int, j: int| 0 <= i < j < s.len() ==> key_ge(s[i].1, s[j].1)
}

proof fn lemma_insert_desc_elements(t: Seq<(u32, WlMode)>, x: (u32, WlMode))
    ensures
        insert_desc(t, x).len() == t.len() + 1,
        forall|k: int| 0 <= k < insert_desc(t, x).len() ==> insert_desc(t, x)[k] == x || t.contains(
            insert_desc(t, x)[k],
        ),
    decreases t.len(),
{
    if t.len() > 0 && !key_ge(t.last().1, x.1) {
        lemma_insert_desc_elements(t.drop_last(), x);
        let r = insert_desc(t, x);
        assert forall|k: int| 0 <= k < r.len() implies r[k] == x || t.contains(r[k]) by {
            if k < r.len() - 1 {
                let y = insert_desc(t.drop_last(), x)[k];
                if y != x {
                    let m = choose|m: int| 0 <= m < t.drop_last().len() && t.drop_last()[m] == y;
                    assert(t[m] == y);
                }
            } else {
                assert(t[t.len() - 1] == r[k]);
            }
        }
    } else if t.len() > 0 {
        let r = insert_desc(t, x);
        assert forall|k: int| 0 <= k < r.len() implies r[k] == x || t.contains(r[k]) by {
            if k < t.len() {
                assert(t[k] == r[k]);
            }
        }
    }
}

proof fn lemma_insert_desc_sorted(t: Seq<(u32, WlMode)>, x: (u32, WlMode))
    requires
        sorted_desc(t),
    ensures
        sorted_desc(insert_desc(t, x)),
    decreases t.len(),
{
    if t.len() > 0 {
        if key_ge(t.last().1, x.1) {
            let r = t.push(x);
            assert forall|i: int, j: int| 0 <= i < j < r.len() implies key_ge(r[i].1, r[j].1) by {
                if j == r.len() - 1 && i < t.len() - 1 {
                    assert(key_ge(t[i].1, t[t.len() - 1].1));
                }
            }
        } else {
            let u = t.drop_last();
            lemma_insert_desc_sorted(u, x);
            lemma_insert_desc_elements(u, x);
            let w = insert_desc(u, x);
            let r = w.push(t.last());
            assert forall|i: int, j: int| 0 <= i < j < r.len() implies key_ge(r[i].1, r[j].1) by {
                if j == r.len() - 1 {
                    if w[i] != x {
                        let m = choose|m: int| 0 <= m < u.len() && u[m] == w[i];
                        assert(key_ge(t[m].1, t[t.len() - 1].1));
                    }
                }
            }
        }
    }
}

/// The modes are listed widest, then tallest, then fastest first.
pub proof fn lemma_sort_desc_sorted(s: Seq<(u32, WlMode)>)
    ensures
        sorted_desc(sort_desc(s)),
    decreases s.len(),
{
    if s.len() > 0 {
        lemma_sort_desc_sorted(s.drop_last());
        lemma_insert_desc_sorted(sort_desc(s.drop_last()), s.last());
    }
}

proof fn lemma_insert_desc_multiset(t: Seq<(u32, WlMode)>, x: (u32, WlMode))
    ensures
        insert_desc(t, x).to_multiset() =~= t.to_multiset().insert(x),
    decreases t.len(),
{
    broadcast use vstd::seq_lib::group_to_multiset_ensures;

    if t.len() == 0 {
        assert(seq![x] =~= Seq::<(u32, WlMode)>::empty().push(x));
    } else if !key_ge(t.last().1, x.1) {
        lemma_insert_desc_multiset(t.drop_last(), x);
        assert(t =~= t.drop_last().push(t.last()));
    }
}

/// Sorting neither loses nor adds modes: the result holds the same rows,
/// each as often as before.
pub proof fn lemma_sort_desc_permutes(s: Seq<(u32, WlMode)>)
    ensures
        sort_desc(s).to_multiset() =~= s.to_multiset(),
    decreases s.len(),
{
    broadcast use vstd::seq_lib::group_to_multiset_ensures;

    if s.len() > 0 {
        lemma_sort_desc_permutes(s.drop_last());
        lemma_insert_desc_multiset(sort_desc(s.drop_last()), s.last());
        assert(s =~= s.drop_last().push(s.last()));
    }
}

/// Sorts rows with `sort_desc`.
pub fn sort_modes(rows: &Vec<(u32, WlMode)>) -> (r: Vec<(u32, WlMode)>)
    ensures
        r@ == sort_desc(rows@),
{
    let mut out: Vec<(u32, WlMode)> = Vec::new();
    let mut i: usize = 0;
    assert(rows@.take(0) =~= Seq::<(u32, WlMode)>::empty());
    while i < rows.len()
        invariant
            i <= rows@.len(),
            out@ == sort_desc(rows@.take(i as int)),
        decreases rows@.len() - i,
    {
        let x = rows[i];
        let ghost p = out@;
        assert(rows@.take(i + 1).drop_last() =~= rows@.take(i as int));
        assert(rows@.take(i + 1).last() == x);
        out.push(x);
        let mut j: usize = out.len() - 1;
        assert(p.take(j as int) =~= p);
        assert(p.skip(j as int) =~= Seq::<(u32, WlMode)>::empty());
        assert(out@ =~= p.take(j as int) + seq![x] + p.skip(j as int));
        while j > 0 && !key_ge_exec(out[j - 1].1, x.1)
            invariant
                j <= p.len(),
                out@ == p.take(j as int) + seq![x] + p.skip(j as int),
                insert_desc(p, x) == insert_desc(p.take(j as int), x) + p.skip(j as int),
            decreases j,
        {
            let ghost q = p.take(j as int);
            assert(out@[j - 1] == p[j - 1]);
            assert(q.drop_last() =~= p.take(j - 1));
            assert(q.last() == p[j - 1]);
            assert(insert_desc(q, x) == insert_desc(p.take(j - 1), x).push(p[j - 1]));
            assert(insert_desc(p, x) =~= insert_desc(p.take(j - 1), x) + p.skip(j - 1));
            let prev = out[j - 1];
            out.set(j - 1, x);
            out.set(j, prev);
            assert(out@ =~= p.take(j - 1) + seq![x] + p.skip(j - 1));
            j = j - 1;
        }
        proof {
            if j > 0 {
                let q = p.take(j as int);
                assert(out@[j - 1] == p[j - 1]);
                assert(q.last() == p[j - 1]);
                assert(insert_desc(q, x) == q.push(x));
            } else {
                assert(p.take(0) =~= Seq::<(u32, WlMode)>::empty());
            }
            assert(out@ =~= insert_desc(p, x));
        }
        i = i + 1;
    }
    assert(rows@.take(rows@.len() as int) =~= rows@);
    out
}

/// The modes of head `head` among the first `k` modes, in order.
pub open spec fn head_rows(s: DisplayStateView, head: u32, k: int) -> Seq<(u32, WlMode)>
    decreases k,
{
    if k <= 0 {
        Seq::<(u32, WlMode)>::empty()
    } else {
        head_rows(s, head, k - 1) + (if s.modes[k - 1].head == head {
            seq![(s.mode_ids[k - 1], s.modes[k - 1].mode)]
        } else {
            Seq::<(u32, WlMode)>::empty()
        })
    }
}

/// The markers after a mode line.
pub open spec fn markers(preferred: bool, current: bool) -> Seq<char> {
    if preferred && current {
        " (preferred, current)"@
    } else if preferred {
        " (preferred)"@
    } else if current {
        " (current)"@
    } else {
        Seq::<char>::empty()
    }
}

/// A mode line: size and refresh rate (`{:.6}` Hz), then its markers.
pub open spec fn mode_line(m: WlMode, current: bool) -> Seq<char> {
    "    "@ + int_dec(m.width as int) + "x"@ + int_dec(m.height as int) + " px, "@ + millis_text(
        m.refresh as int,
    ) + "000 Hz"@ + markers(m.preferred, current)
}

/// A mode line is marked current exactly when it lists the head's current
/// mode, and marked preferred exactly when the mode is the preferred one.
pub proof fn lemma_mode_line_markers(m: WlMode, current: bool)
    ensures
        ends_with(mode_line(m, current), "current)"@) <==> current,
        (ends_with(mode_line(m, current), " (preferred)"@) || ends_with(
            mode_line(m, current),
            " (preferred, current)"@,
        )) <==> m.preferred,
{
    reveal_strlit("current)");
    reveal_strlit(" (preferred)");
    reveal_strlit(" (preferred, current)");
    reveal_strlit(" (current)");
    reveal_strlit("000 Hz");
    let x = "    "@ + int_dec(m.width as int) + "x"@ + int_dec(m.height as int) + " px, "@ + millis_text(
        m.refresh as int,
    ) + "000 Hz"@;
    let mk = markers(m.preferred, current);
    let l = mode_line(m, current);
    assert(l == x + mk);
    assert(x.len() >= 6 && x.last() == 'z' && x[x.len() - 2] == 'H') by {
        assert(x[x.len() - 1] == "000 Hz"@[5]);
        assert(x[x.len() - 2] == "000 Hz"@[4]);
    }
    let c = "current)"@;
    let pr = " (preferred)"@;
    let pc = " (preferred, current)"@;
    let co = " (current)"@;
    if m.preferred && current {
        lemma_ends_with_concat(x, pc);
        assert(pc.skip(pc.len() - c.len()) =~= c);
        assert(l.skip(l.len() - c.len()) =~= pc.skip(pc.len() - c.len()));
        lemma_not_ends_with(l, pr, 2);
    } else if m.preferred {
        lemma_ends_with_concat(x, pr);
        assert(l[l.len() - 2] == pr[pr.len() - 2]);
        lemma_not_ends_with(l, c, 2);
        lemma_not_ends_with(l, pc, 2);
    } else if current {
        lemma_ends_with_concat(x, co);
        assert(co.skip(co.len() - c.len()) =~= c);
        assert(l.skip(l.len() - c.len()) =~= co.skip(co.len() - c.len()));
        assert(l[l.len() - 2] == co[co.len() - 2]);
        lemma_not_ends_with(l, pr, 2);
        if l.len() >= pc.len() {
            assert(l[l.len() - 10] == co[0]);
            lemma_not_ends_with(l, pc, 10);
        }
    } else {
        assert(mk =~= Seq::<char>::empty());
        assert(l =~= x);
        lemma_not_ends_with(l, c, 1);
        lemma_not_ends_with(l, pr, 1);
        lemma_not_ends_with(l, pc, 1);
    }
}

/// The lines of sorted modes: modes with a zero size or rate are skipped;
/// a mode equal in size and rate to one listed before is skipped unless it
/// is current or preferred.
pub open spec fn mode_lines(rows: Seq<(u32, WlMode)>, current: Option<u32>, seen: Seq<(i32, i32, i32)>) -> Seq<
    Seq<char>,
>
    decreases rows.len(),
{
    if rows.len() == 0 {
        Seq::<Seq<char>>::empty()
    } else {
        let id = rows[0].0;
        let m = rows[0].1;
        if m.width != 0 && m.height != 0 && m.refresh != 0 {
            let key = (m.width, m.height, m.refresh);
            let is_current = current == Some(id);
            (if !seen.contains(key) || is_current || m.preferred {
                seq![mode_line(m, is_current)]
            } else {
                Seq::<Seq<char>>::empty()
            }) + mode_lines(rows.drop_first(), current, seen.push(key))
        } else {
            mode_lines(rows.drop_first(), current, seen)
        }
    }
}

/// A mode with a size and a rate.
pub open spec fn listable(m: WlMode) -> bool {
    m.width != 0 && m.height != 0 && m.refresh != 0
}

/// Every line of a mode listing shows one of the head's modes, marked
/// current exactly when that mode is the head's current one; and the
/// current mode, when it has a size and a rate, is always listed, marked
/// current (even when an equal mode came before it).
pub proof fn lemma_mode_lines_show_current(
    rows: Seq<(u32, WlMode)>,
    current: Option<u32>,
    seen: Seq<(i32, i32, i32)>,
)
    ensures
        forall|i: int|
            0 <= i < mode_lines(rows, current, seen).len() ==> exists|k: int|
                0 <= k < rows.len() && #[trigger] mode_lines(rows, current, seen)[i] == mode_line(
                    rows[k].1,
                    current == Some(rows[k].0),
                ),
        forall|k: int|
            0 <= k < rows.len() && current == Some(rows[k].0) && listable(rows[k].1) ==> exists|i: int|
                0 <= i < mode_lines(rows, current, seen).len() && #[trigger] mode_lines(
                    rows,
                    current,
                    seen,
                )[i] == mode_line(#[trigger] rows[k].1, true),
    decreases rows.len(),
{
    if rows.len() > 0 {
        let id = rows[0].0;
        let m = rows[0].1;
        let rest = rows.drop_first();
        let l = mode_lines(rows, current, seen);
        let seen2 = if listable(m) {
            seen.push((m.width, m.height, m.refresh))
        } else {
            seen
        };
        lemma_mode_lines_show_current(rest, current, seen2);
        let tail = mode_lines(rest, current, seen2);
        let head = if listable(m) && (!seen.contains((m.width, m.height, m.refresh)) || current
            == Some(id) || m.preferred) {
            seq![mode_line(m, current == Some(id))]
        } else {
            Seq::<Seq<char>>::empty()
        };
        assert(l == head + tail);
        assert forall|i: int| 0 <= i < l.len() implies exists|k: int|
            0 <= k < rows.len() && #[trigger] l[i] == mode_line(rows[k].1, current == Some(rows[k].0)) by {
            if i < head.len() {
                assert(l[i] == mode_line(rows[0].1, current == Some(rows[0].0)));
            } else {
                assert(l[i] == tail[i - head.len()]);
                let k2 = choose|k2: int|
                    0 <= k2 < rest.len() && #[trigger] tail[i - head.len()] == mode_line(
                        rest[k2].1,
                        current == Some(rest[k2].0),
                    );
                assert(rows[k2 + 1] == rest[k2]);
            }
        }
        assert forall|k: int|
            0 <= k < rows.len() && current == Some(rows[k].0) && listable(rows[k].1) implies exists|i: int|
                0 <= i < l.len() && #[trigger] l[i] == mode_line(#[trigger] rows[k].1, true) by {
            if k == 0 {
                assert(l[0] == mode_line(rows[0].1, true));
            } else {
                assert(rows[k] == rest[k - 1]);
                let i2 = choose|i2: int|
                    0 <= i2 < tail.len() && #[trigger] tail[i2] == mode_line(rest[k - 1].1, true);
                assert(l[i2 + head.len()] == tail[i2]);
            }
        }
    }
}

/// The header lines of a head.
pub open spec fn head_lines(h: WlHeadView) -> Seq<Seq<char>> {
    seq![
        h.name + " \""@ + h.description + "\""@,
        "  Make: "@ + h.make,
        "  Model: "@ + h.model,
        "  Enabled: "@ + (if h.enabled {
            "yes"@
        } else {
            "no"@
        }),
        "  Modes:"@,
    ]
}

/// The report of the first `k` heads.
pub open spec fn rates_report(s: DisplayStateView, k: int) -> Seq<Seq<char>>
    decreases k,
{
    if k <= 0 {
        Seq::<Seq<char>>::empty()
    } else {
        rates_report(s, k - 1) + head_lines(s.heads[k - 1]) + mode_lines(
            sort_desc(head_rows(s, s.head_ids[k - 1], s.modes.len() as int)),
            s.heads[k - 1].current_mode,
            Seq::<(i32, i32, i32)>::empty(),
        )
    }
}

fn seen_contains(seen: &Vec<(i32, i32, i32)>, key: (i32, i32, i32)) -> (r: bool)
    ensures
        r == seen@.contains(key),
{
    let mut i: usize = 0;
    while i < seen.len()
        invariant
            i <= seen@.len(),
            forall|m: int| 0 <= m < i ==> seen@[m] != key,
        decreases seen@.len() - i,
    {
        let k = seen[i];
        if k.0 == key.0 && k.1 == key.1 && k.2 == key.2 {
            assert(seen@[i as int] == key);
            return true;
        }
        i = i + 1;
    }
    false
}

fn mode_line_exec(m: WlMode, current: bool) -> (r: String)
    ensures
        r@ == mode_line(m, current),
{
    let mut r = String::from_str("    ");
    push_int(&mut r, m.width as i64);
    r.append("x");
    push_int(&mut r, m.height as i64);
    r.append(" px, ");
    push_millis(&mut r, m.refresh);
    r.append("000 Hz");
    if m.preferred && current {
        r.append(" (preferred, current)");
    } else if m.preferred {
        r.append(" (preferred)");
    } else if current {
        r.append(" (current)");
    }
    r
}

fn push_head_lines(r: &mut Vec<String>, h: &WlHead)
    ensures
        final(r).deep_view() == old(r).deep_view() + head_lines(h@),
{
    let mut l1 = h.name.clone();
    l1.append(" \"");
    l1.append(h.description.as_str());
    l1.append("\"");
    r.push(l1);
    let mut l2 = String::from_str("  Make: ");
    l2.append(h.make.as_str());
    r.push(l2);
    let mut l3 = String::from_str("  Model: ");
    l3.append(h.model.as_str());
    r.push(l3);
    let mut l4 = String::from_str("  Enabled: ");
    l4.append(if h.enabled { "yes" } else { "no" });
    r.push(l4);
    r.push(String::from_str("  Modes:"));
    assert(r.deep_view() =~= old(r).deep_view() + head_lines(h@));
}

/// For every head: its name, description, make, model and whether it is
/// enabled, then its modes, largest and fastest first, without repeats.
pub fn refresh_rate_report(state: &DisplayState) -> (r: Vec<String>)
    requires
        state.wf(),
    ensures
        r.deep_view() == rates_report(state@, state@.heads.len() as int),
{
    let ghost s = state@;
    let mut r: Vec<String> = Vec::new();
    let mut i: usize = 0;
    while i < state.heads.len()
        invariant
            state.wf(),
            s == state@,
            i <= state.heads@.len(),
            r.deep_view() == rates_report(s, i as int),
        decreases state.heads@.len() - i,
    {
        let h = &state.heads[i];
        let hid = state.head_ids[i];
        assert(s.heads[i as int] == h@);
        push_head_lines(&mut r, h);
        let ghost after_head = r.deep_view();
        // The head's modes, in order.
        let mut rows: Vec<(u32, WlMode)> = Vec::new();
        let mut k: usize = 0;
        while k < state.modes.len()
            invariant
                state.wf(),
                s == state@,
                k <= state.modes@.len(),
                rows@ == head_rows(s, hid, k as int),
            decreases state.modes@.len() - k,
        {
            let e = state.modes[k];
            if e.head == hid {
                rows.push((state.mode_ids[k], e.mode));
            }
            assert(rows@ =~= head_rows(s, hid, k + 1));
            k = k + 1;
        }
        let sorted = sort_modes(&rows);
        let current = h.current_mode;
        let mut seen: Vec<(i32, i32, i32)> = Vec::new();
        let mut n: usize = 0;
        let ghost total = mode_lines(sorted@, current, Seq::<(i32, i32, i32)>::empty());
        assert(sorted@.skip(0) =~= sorted@);
        while n < sorted.len()
            invariant
                n <= sorted@.len(),
                total == mode_lines(sorted@, current, Seq::<(i32, i32, i32)>::empty()),
                after_head + total == r.deep_view() + mode_lines(sorted@.skip(n as int), current, seen@),
            decreases sorted@.len() - n,
        {
            let (id, m) = sorted[n];
            let ghost rest = sorted@.skip(n as int);
            assert(rest[0] == (id, m));
            assert(rest.drop_first() =~= sorted@.skip(n + 1));
            let ghost before = r.deep_view();
            if m.width != 0 && m.height != 0 && m.refresh != 0 {
                let key = (m.width, m.height, m.refresh);
                let was_seen = seen_contains(&seen, key);
                let is_current = match current {
                    Some(c) => c == id,
                    None => false,
                };
                if !was_seen || is_current || m.preferred {
                    r.push(mode_line_exec(m, is_current));
                    assert(r.deep_view() =~= before + seq![mode_line(m, is_current)]);
                }
                seen.push(key);
            }
            n = n + 1;
        }
        assert(sorted@.skip(n as int) =~= Seq::<(u32, WlMode)>::empty());
        assert(r.deep_view() =~= rates_report(s, i + 1));
        i = i + 1;
    }
    r
}

/// Events about heads or modes that were never announced change nothing.
pub proof fn lemma_unknown_objects_ignored(s: DisplayStateView, head: u32, he: HeadEventView, mode: u32, me: ModeEvent)
    requires
        index_of(s.head_ids, head) is None,
        index_of(s.mode_ids, mode) is None,
    ensures
        after_head_event(s, head, he) == s,
        after_mode_event(s, mode, me) == s,
{
}

/// Two head records agree on every field but the position.
pub open spec fn same_but_position(a: WlHeadView, b: WlHeadView) -> bool {
    a.name == b.name && a.description == b.description && a.make == b.make && a.model == b.model
        && a.enabled == b.enabled && a.current_mode == b.current_mode && a.transform == b.transform
}

/// An event of a known head (other than a new mode) changes that head's
/// record alone, and only the field it reports: a position event puts the
/// head at the event's `x` and `y`; a name, description, make or model event
/// sets that text; an enabled event enables the head exactly when its value
/// is non-zero; a current-mode event sets the current mode and a transform
/// event the transform. The other heads and all modes stay.
pub proof fn lemma_head_event_updates(s: DisplayStateView, head: u32, e: HeadEventView, j: int)
    requires
        wf_view(s),
        0 <= j < s.head_ids.len(),
        s.head_ids[j] == head,
        !(e is Mode),
    ensures
        ({
            let t = after_head_event(s, head, e);
            let h = s.heads[j];
            let g = t.heads[j];
            &&& t.head_ids == s.head_ids && t.mode_ids == s.mode_ids && t.modes == s.modes
            &&& t.heads.len() == s.heads.len()
            &&& forall|k: int| 0 <= k < s.heads.len() && k != j ==> t.heads[k] == s.heads[k]
            &&& match e {
                HeadEventView::Position { x, y } => g.x == x && g.y == y && same_but_position(g, h),
                HeadEventView::Name { name } => g.name == name && g.x == h.x && g.y == h.y
                    && g.description == h.description && g.make == h.make && g.model == h.model,
                HeadEventView::Description { description } => g.description == description
                    && g.name == h.name && g.make == h.make && g.model == h.model,
                HeadEventView::Make { make } => g.make == make && g.name == h.name && g.model
                    == h.model,
                HeadEventView::Model { model } => g.model == model && g.name == h.name && g.make
                    == h.make,
                HeadEventView::Enabled { enabled } => (g.enabled <==> enabled != 0) && g.x == h.x
                    && g.y == h.y && g.current_mode == h.current_mode,
                HeadEventView::CurrentMode { mode } => g.current_mode == Some(mode) && g.enabled
                    == h.enabled && g.x == h.x && g.y == h.y,
                HeadEventView::Transform { transform } => g.transform == transform && g.x == h.x
                    && g.y == h.y,
                _ => g == h,
            }
        }),
{
    lemma_index_from(s.head_ids, head, 0);
    match index_of(s.head_ids, head) {
        Some(i) => {
            assert(i == j);
        },
        None => {},
    }
}

/// An event of a known mode changes that mode alone: a size event sets its
/// width and height, a refresh event its rate, a preferred event marks it
/// preferred; the mode stays with its head, and every other field, mode and
/// head stays.
pub proof fn lemma_mode_event_updates(s: DisplayStateView, mode: u32, e: ModeEvent, j: int)
    requires
        wf_view(s),
        0 <= j < s.mode_ids.len(),
        s.mode_ids[j] == mode,
    ensures
        ({
            let t = after_mode_event(s, mode, e);
            let m = s.modes[j].mode;
            let n = t.modes[j].mode;
            &&& t.head_ids == s.head_ids && t.heads == s.heads && t.mode_ids == s.mode_ids
            &&& t.modes.len() == s.modes.len() && t.modes[j].head == s.modes[j].head
            &&& forall|k: int| 0 <= k < s.modes.len() && k != j ==> t.modes[k] == s.modes[k]
            &&& match e {
                ModeEvent::Size { width, height } => n.width == width && n.height == height
                    && n.refresh == m.refresh && n.preferred == m.preferred,
                ModeEvent::Refresh { refresh } => n.refresh == refresh && n.width == m.width
                    && n.height == m.height && n.preferred == m.preferred,
                ModeEvent::Preferred => n.preferred && n.width == m.width && n.height == m.height
                    && n.refresh == m.refresh,
                ModeEvent::Other => n == m,
            }
        }),
{
    lemma_index_from(s.mode_ids, mode, 0);
    match index_of(s.mode_ids, mode) {
        Some(i) => {
            assert(i == j);
        },
        None => {},
    }
}

/// The compositor's answer records success exactly for `succeeded`, and
/// changes nothing else.
pub proof fn lemma_config_answer(s: DisplayStateView, e: ConfigEvent)
    ensures
        after_config_event(s, e).config_success == Some(e == ConfigEvent::Succeeded),
        after_config_event(s, e).config_success == Some(true) <==> e == ConfigEvent::Succeeded,
        after_config_event(s, e).heads == s.heads && after_config_event(s, e).modes == s.modes,
{
}

/// A head announced again starts over with an empty record, and a mode
/// announced for a known head starts with zero size and rate, owned by it.
pub proof fn lemma_announcements_reset(s: DisplayStateView, head: u32, mode: u32)
    requires
        wf_view(s),
    ensures
        ({
            let t = after_manager_event(s, ManagerEvent::Head { head });
            index_of(t.head_ids, head) matches Some(i) && t.heads[i] == default_head()
        }),
        index_of(s.head_ids, head) is Some ==> ({
            let t = after_head_event(s, head, HeadEventView::Mode { mode });
            mode_of(t, mode) == Some(ModeEntry { head, mode: default_mode() })
        }),
{
    lemma_index_from(s.head_ids, head, 0);
    let t = after_manager_event(s, ManagerEvent::Head { head });
    match index_of(s.head_ids, head) {
        Some(i) => {},
        None => {
            lemma_index_found(t.head_ids, head, 0, s.head_ids.len() as int);
        },
    }
    if index_of(s.head_ids, head) is Some {
        lemma_index_from(s.mode_ids, mode, 0);
        let u = after_head_event(s, head, HeadEventView::Mode { mode });
        match index_of(s.mode_ids, mode) {
            Some(j) => {},
            None => {
                lemma_index_found(u.mode_ids, mode, 0, s.mode_ids.len() as int);
            },
        }
    }
}

} // verus!
