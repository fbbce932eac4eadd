//! The state of the terminal front-end.
//!
//! Keys and messages of the engine change the state; what the change asks for outside, commands
//! to send and running commands to abort, collects in an outbox.
//!
//! - Two categories, switched with `Tab`: CloudWatch and Kinesis.
//! - CloudWatch drills from groups to streams to logs.
//! - Kinesis drills from a stream's name to shards to records.

use vstd::prelude::*;

use crate::engine;
use crate::engine::{EngineCmd, Msg, ALL_SHARDS, ALL_STREAMS, GLOBAL_REQ};
use crate::text;

verus! {

/// How many lines of output are kept, so that a watched view cannot grow forever.
pub const OUTPUT_CAP: usize = 100_000;

#[derive(Debug, Clone, Copy, PartialEq, Eq, Structural)]
pub enum Category {
    CloudWatch,
    Kinesis,
}

#[derive(Debug, Clone, Copy, PartialEq, Eq, Structural)]
pub enum Pane {
    List,
    Output,
    Input,
}

/// What the input line asks for.
#[derive(Debug, Clone, Copy, PartialEq, Eq, Structural)]
pub enum InputKind {
    KinesisStream,
    CwFilter,
    KinFilter,
}

/// A key. `Other` is every key that means nothing here.
#[derive(Debug, Clone, Copy, PartialEq, Eq, Structural)]
pub enum Key {
    Enter,
    Esc,
    Backspace,
    Tab,
    Up,
    Down,
    Left,
    Right,
    PageUp,
    PageDown,
    Char(char),
    Other,
}

/// Something to do outside.
#[derive(Debug)]
pub enum Effect {
    /// Send a command to the engine.
    Send(EngineCmd),
    /// Abort the running command of that id.
    Abort(u64),
}

/// What an effect says.
pub ghost enum Deed {
    Send(engine::Request),
    Abort(int),
}

impl View for Effect {
    type V = Deed;

    open spec fn view(&self) -> Deed {
        match *self {
            Effect::Send(cmd) => Deed::Send(cmd@),
            Effect::Abort(req) => Deed::Abort(req as int),
        }
    }
}

/// What a sequence of effects says.
pub open spec fn deeds(effects: Seq<Effect>) -> Seq<Deed> {
    effects.map_values(|e: Effect| e@)
}

/// The state of the front-end.
pub struct App {
    account_id: String,
    category: Category,
    pane: Pane,
    // Where the user is; no stream and no shard selected means all
    cw_group: Option<String>,
    cw_stream_sel: Option<String>,
    cw_filter: Option<String>,
    kin_stream: Option<String>,
    kin_shard_sel: Option<String>,
    kin_filter: Option<String>,
    // List pane
    items: Vec<String>,
    selected: Option<usize>,
    list_title: String,
    // Output pane
    output: Vec<String>,
    output_title: String,
    follow: bool,
    scroll: usize,
    viewport_height: usize,
    // Input pane
    input: String,
    input_prompt: String,
    input_kind: InputKind,
    status: String,
    // The engine
    req: u64,
    abort: Option<u64>,
    loading: bool,
    watching: bool,
    should_quit: bool,
    outbox: Vec<Effect>,
}

/// What the state says.
#[verifier::ext_equal]
pub ghost struct AppState {
    pub account_id: Seq<char>,
    pub category: Category,
    pub pane: Pane,
    pub cw_group: Option<Seq<char>>,
    pub cw_stream_sel: Option<Seq<char>>,
    pub cw_filter: Option<Seq<char>>,
    pub kin_stream: Option<Seq<char>>,
    pub kin_shard_sel: Option<Seq<char>>,
    pub kin_filter: Option<Seq<char>>,
    pub items: Seq<Seq<char>>,
    pub selected: Option<int>,
    pub list_title: Seq<char>,
    pub output: Seq<Seq<char>>,
    pub output_title: Seq<char>,
    pub follow: bool,
    pub scroll: int,
    pub viewport_height: int,
    pub input: Seq<char>,
    pub input_prompt: Seq<char>,
    pub input_kind: InputKind,
    pub status: Seq<char>,
    /// The id of the command given last.
    pub req: int,
    /// The command that runs and can be aborted.
    pub abort: Option<int>,
    pub loading: bool,
    pub watching: bool,
    pub should_quit: bool,
    /// What is left to do outside.
    pub outbox: Seq<Deed>,
}

/// A number that may be absent.
pub open spec fn opt_number(n: Option<usize>) -> Option<int> {
    match n {
        Some(v) => Some(v as int),
        None => None,
    }
}

/// An id that may be absent.
pub open spec fn opt_id(n: Option<u64>) -> Option<int> {
    match n {
        Some(v) => Some(v as int),
        None => None,
    }
}

impl View for App {
    type V = AppState;

    closed spec fn view(&self) -> AppState {
        AppState {
            account_id: self.account_id@,
            category: self.category,
            pane: self.pane,
            cw_group: text::opt_text(self.cw_group),
            cw_stream_sel: text::opt_text(self.cw_stream_sel),
            cw_filter: text::opt_text(self.cw_filter),
            kin_stream: text::opt_text(self.kin_stream),
            kin_shard_sel: text::opt_text(self.kin_shard_sel),
            kin_filter: text::opt_text(self.kin_filter),
            items: text::texts(self.items@),
            selected: opt_number(self.selected),
            list_title: self.list_title@,
            output: text::texts(self.output@),
            output_title: self.output_title@,
            follow: self.follow,
            scroll: self.scroll as int,
            viewport_height: self.viewport_height as int,
            input: self.input@,
            input_prompt: self.input_prompt@,
            input_kind: self.input_kind,
            status: self.status@,
            req: self.req as int,
            abort: opt_id(self.abort),
            loading: self.loading,
            watching: self.watching,
            should_quit: self.should_quit,
            outbox: deeds(self.outbox@),
        }
    }
}

// ── what holds in every state ───────────────────────────────────────────────
impl AppState {
    /// The selection lies in the list, the output is bounded and the scroll position lies in
    /// it, a command that runs is the one given last, and each pane has what it shows: output
    /// has its group or stream, a list of shards has its stream, and a filter is asked for only
    /// over output.
    pub open spec fn wf(self) -> bool {
        &&& self.selected matches Some(i) ==> 0 <= i < self.items.len()
        &&& self.output.len() <= OUTPUT_CAP
        &&& 0 <= self.scroll <= self.output.len()
        &&& 0 <= self.viewport_height
        &&& 0 <= self.req
        &&& self.abort matches Some(r) ==> r == self.req
        &&& self.viewing()
    }

    /// Each pane has what it shows.
    pub open spec fn viewing(self) -> bool {
        match self.pane {
            Pane::List => self.category == Category::Kinesis ==> self.kin_stream is Some,
            Pane::Output => self.has_source(),
            Pane::Input => match self.input_kind {
                InputKind::KinesisStream => self.category == Category::Kinesis,
                InputKind::CwFilter => self.category == Category::CloudWatch && self.has_source(),
                InputKind::KinFilter => self.category == Category::Kinesis && self.has_source(),
            },
        }
    }

    /// There is a group, or a stream, whose events can be shown.
    pub open spec fn has_source(self) -> bool {
        match self.category {
            Category::CloudWatch => self.cw_group is Some,
            Category::Kinesis => self.kin_stream is Some,
        }
    }

    // ── commands ────────────────────────────────────────────────────────────
    /// The running command is aborted, and a new id is taken: what the old command still sends
    /// is stale.
    pub open spec fn superseded(self) -> AppState {
        AppState {
            req: self.req + 1,
            abort: None,
            outbox: match self.abort {
                Some(r) => self.outbox.push(Deed::Abort(r)),
                None => self.outbox,
            },
            ..self
        }
    }

    /// A request is sent, and its answer awaited.
    pub open spec fn asking(self, request: engine::Request) -> AppState {
        AppState {
            loading: true,
            status: Seq::empty(),
            outbox: self.outbox.push(Deed::Send(request)),
            ..self
        }
    }

    /// An empty list under a title.
    pub open spec fn listing(self, category: Category, title: Seq<char>) -> AppState {
        AppState {
            category,
            pane: Pane::List,
            items: Seq::empty(),
            selected: None,
            list_title: title,
            ..self
        }
    }

    /// An empty output under a title, followed from its start.
    pub open spec fn showing(self, category: Category, title: Seq<char>) -> AppState {
        AppState {
            category,
            pane: Pane::Output,
            output: Seq::empty(),
            follow: true,
            scroll: 0,
            output_title: title,
            ..self
        }
    }

    /// The list of groups is asked for.
    #[verifier::opaque]
    pub open spec fn groups_loading(self) -> AppState {
        let s = self.superseded();
        AppState { cw_group: None, ..s }.listing(Category::CloudWatch, "CloudWatch · Groups"@).asking(
            engine::Request::Groups { req: s.req },
        )
    }

    /// The list of a group's streams is asked for.
    #[verifier::opaque]
    pub open spec fn streams_loading(self, group: Seq<char>) -> AppState {
        let s = self.superseded();
        AppState { cw_group: Some(group), ..s }.listing(
            Category::CloudWatch,
            "CloudWatch · "@ + group + " · Streams"@,
        ).asking(engine::Request::Streams { req: s.req, group })
    }

    /// The events of a stream are asked for, or of all streams of the group.
    #[verifier::opaque]
    pub open spec fn logs_loading(self, group: Seq<char>, stream: Option<Seq<char>>) -> AppState {
        let s = self.superseded();
        let label = match stream {
            Some(name) => name,
            None => "ALL"@,
        };
        s.showing(Category::CloudWatch, "CloudWatch · "@ + group + " · "@ + label).asking(
            engine::Request::Logs {
                req: s.req,
                group,
                stream,
                filter: self.cw_filter,
                watch: self.watching,
            },
        )
    }

    /// The list of a stream's shards is asked for.
    #[verifier::opaque]
    pub open spec fn shards_loading(self, stream: Seq<char>) -> AppState {
        let s = self.superseded();
        AppState { kin_stream: Some(stream), ..s }.listing(
            Category::Kinesis,
            "Kinesis · "@ + stream + " · Shards"@,
        ).asking(engine::Request::Shards { req: s.req, stream })
    }

    /// The records of a shard are asked for, or of all shards of the stream.
    #[verifier::opaque]
    pub open spec fn search_loading(self, stream: Seq<char>, shard: Option<Seq<char>>) -> AppState {
        let s = self.superseded();
        let label = match shard {
            Some(name) => name,
            None => "all shards"@,
        };
        s.showing(Category::Kinesis, "Kinesis · "@ + stream + " · "@ + label).asking(
            engine::Request::Search {
                req: s.req,
                stream,
                shard,
                filter: self.kin_filter,
                watch: self.watching,
            },
        )
    }
}

impl App {
    /// Every state that the methods lead to satisfies this.
    pub open spec fn wf(self) -> bool {
        self@.wf()
    }

    /// The state before anything was asked for.
    pub fn new() -> (res: App)
        ensures
            res.wf(),
            res@ == (AppState {
                account_id: "resolving…"@,
                category: Category::CloudWatch,
                pane: Pane::List,
                cw_group: None,
                cw_stream_sel: None,
                cw_filter: None,
                kin_stream: None,
                kin_shard_sel: None,
                kin_filter: None,
                items: Seq::empty(),
                selected: None,
                list_title: Seq::empty(),
                output: Seq::empty(),
                output_title: Seq::empty(),
                follow: true,
                scroll: 0,
                viewport_height: 1,
                input: Seq::empty(),
                input_prompt: Seq::empty(),
                input_kind: InputKind::KinesisStream,
                status: Seq::empty(),
                req: GLOBAL_REQ as int,
                abort: None,
                loading: false,
                watching: false,
                should_quit: false,
                outbox: Seq::empty(),
            }),
    {
        let res = App {
            account_id: "resolving…".to_string(),
            category: Category::CloudWatch,
            pane: Pane::List,
            cw_group: None,
            cw_stream_sel: None,
            cw_filter: None,
            kin_stream: None,
            kin_shard_sel: None,
            kin_filter: None,
            items: Vec::new(),
            selected: None,
            list_title: String::new(),
            output: Vec::new(),
            output_title: String::new(),
            follow: true,
            scroll: 0,
            viewport_height: 1,
            input: String::new(),
            input_prompt: String::new(),
            input_kind: InputKind::KinesisStream,
            status: String::new(),
            req: GLOBAL_REQ,
            abort: None,
            loading: false,
            watching: false,
            should_quit: false,
            outbox: Vec::new(),
        };
        assert(res@.items =~= Seq::empty());
        assert(res@.output =~= Seq::empty());
        assert(res@.outbox =~= Seq::empty());
        res
    }

    fn push_effect(&mut self, effect: Effect)
        ensures
            final(self)@ == (AppState { outbox: old(self)@.outbox.push(effect@), ..old(self)@ }),
    {
        self.outbox.push(effect);
        assert(self@.outbox =~= old(self)@.outbox.push(effect@));
    }

    /// Aborts the running command and takes a new id.
    fn start(&mut self) -> (req: u64)
        requires
            old(self)@.req < u64::MAX,
        ensures
            final(self)@ == old(self)@.superseded(),
            req == final(self)@.req,
    {
        if let Some(running) = self.abort {
            self.push_effect(Effect::Abort(running));
        }
        self.abort = None;
        self.req = self.req + 1;
        self.req
    }

    fn send(&mut self, cmd: EngineCmd)
        ensures
            final(self)@ == (AppState {
                outbox: old(self)@.outbox.push(Deed::Send(cmd@)),
                ..old(self)@
            }),
    {
        self.push_effect(Effect::Send(cmd));
    }

    fn clear_list(&mut self)
        ensures
            final(self)@ == (AppState { items: Seq::empty(), selected: None, ..old(self)@ }),
    {
        self.items = Vec::new();
        self.selected = None;
        assert(self@.items =~= Seq::empty());
    }

    fn clear_output(&mut self)
        ensures
            final(self)@ == (AppState {
                output: Seq::empty(),
                follow: true,
                scroll: 0,
                ..old(self)@
            }),
    {
        self.output = Vec::new();
        self.follow = true;
        self.scroll = 0;
        assert(self@.output =~= Seq::empty());
    }

    // ── loaders ─────────────────────────────────────────────────────────────
    /// Asks for the list of groups.
    pub fn load_groups(&mut self)
        requires
            old(self).wf(),
            old(self)@.req < u64::MAX,
        ensures
            final(self).wf(),
            final(self)@ == old(self)@.groups_loading(),
    {
        let req = self.start();
        self.category = Category::CloudWatch;
        self.pane = Pane::List;
        self.cw_group = None;
        self.clear_list();
        self.list_title = "CloudWatch · Groups".to_string();
        self.loading = true;
        self.status = String::new();
        self.send(EngineCmd::Groups { req });
        reveal(AppState::groups_loading);
        assert(self@ =~= old(self)@.groups_loading());
    }

    /// Asks for the list of a group's streams.
    fn load_streams(&mut self, group: String)
        requires
            old(self).wf(),
            old(self)@.req < u64::MAX,
        ensures
            final(self).wf(),
            final(self)@ == old(self)@.streams_loading(group@),
    {
        let req = self.start();
        self.category = Category::CloudWatch;
        self.pane = Pane::List;
        self.cw_group = Some(group.clone());
        self.clear_list();
        let mut title = "CloudWatch · ".to_string();
        title.append(group.as_str());
        title.append(" · Streams");
        self.list_title = title;
        self.loading = true;
        self.status = String::new();
        self.send(EngineCmd::Streams { req, group });
        reveal(AppState::streams_loading);
        assert(self@ =~= old(self)@.streams_loading(group@));
    }

    /// Asks for the events of a stream, or of all streams of the group.
    fn load_logs(&mut self, group: String, stream: Option<String>)
        requires
            old(self).wf(),
            old(self)@.req < u64::MAX,
            old(self)@.cw_group is Some,
        ensures
            final(self).wf(),
            final(self)@ == old(self)@.logs_loading(group@, text::opt_text(stream)),
    {
        let req = self.start();
        self.category = Category::CloudWatch;
        self.pane = Pane::Output;
        self.clear_output();
        let label = match &stream {
            Some(name) => name.clone(),
            None => "ALL".to_string(),
        };
        let mut title = "CloudWatch · ".to_string();
        title.append(group.as_str());
        title.append(" · ");
        title.append(label.as_str());
        self.output_title = title;
        self.loading = true;
        self.status = String::new();
        let filter = text::copy_opt(&self.cw_filter);
        let watch = self.watching;
        self.send(EngineCmd::Logs { req, group, stream, filter, watch });
        reveal(AppState::logs_loading);
        assert(self@ =~= old(self)@.logs_loading(group@, text::opt_text(stream)));
    }

    /// Asks for the list of a stream's shards.
    fn load_shards(&mut self, stream: String)
        requires
            old(self).wf(),
            old(self)@.req < u64::MAX,
        ensures
            final(self).wf(),
            final(self)@ == old(self)@.shards_loading(stream@),
    {
        let req = self.start();
        self.category = Category::Kinesis;
        self.pane = Pane::List;
        self.kin_stream = Some(stream.clone());
        self.clear_list();
        let mut title = "Kinesis · ".to_string();
        title.append(stream.as_str());
        title.append(" · Shards");
        self.list_title = title;
        self.loading = true;
        self.status = String::new();
        self.send(EngineCmd::Shards { req, stream });
        reveal(AppState::shards_loading);
        assert(self@ =~= old(self)@.shards_loading(stream@));
    }

    /// Asks for the records of a shard, or of all shards of the stream.
    fn load_search(&mut self, stream: String, shard: Option<String>)
        requires
            old(self).wf(),
            old(self)@.req < u64::MAX,
            old(self)@.kin_stream is Some,
        ensures
            final(self).wf(),
            final(self)@ == old(self)@.search_loading(stream@, text::opt_text(shard)),
    {
        let req = self.start();
        self.category = Category::Kinesis;
        self.pane = Pane::Output;
        self.clear_output();
        let label = match &shard {
            Some(name) => name.clone(),
            None => "all shards".to_string(),
        };
        let mut title = "Kinesis · ".to_string();
        title.append(stream.as_str());
        title.append(" · ");
        title.append(label.as_str());
        self.output_title = title;
        self.loading = true;
        self.status = String::new();
        let filter = text::copy_opt(&self.kin_filter);
        let watch = self.watching;
        self.send(EngineCmd::Search { req, stream, shard, filter, watch });
        reveal(AppState::search_loading);
        assert(self@ =~= old(self)@.search_loading(stream@, text::opt_text(shard)));
    }

    /// Hands out what is left to do outside, oldest first.
    pub fn take_effects(&mut self) -> (res: Vec<Effect>)
        ensures
            deeds(res@) == old(self)@.outbox,
            final(self)@ == (AppState { outbox: Seq::empty(), ..old(self)@ }),
    {
        let mut out: Vec<Effect> = Vec::new();
        std::mem::swap(&mut out, &mut self.outbox);
        assert(self@.outbox =~= Seq::empty());
        out
    }
}

// ── messages ────────────────────────────────────────────────────────────────
impl AppState {
    /// One more line of output; the oldest line goes where the output is full, and a scroll
    /// position that is not following moves with the lines.
    pub open spec fn with_line(self, line: Seq<char>) -> AppState {
        let lines = self.output.push(line);
        let excess = lines.len() - OUTPUT_CAP;
        if excess > 0 {
            AppState {
                output: lines.skip(excess),
                scroll: if self.follow {
                    self.scroll
                } else if self.scroll < excess {
                    0
                } else {
                    self.scroll - excess
                },
                ..self
            }
        } else {
            AppState { output: lines, ..self }
        }
    }

    /// The state after a message. What answers another command than the last is stale: it
    /// changes nothing, but a stale command that has started is aborted.
    pub open spec fn received(self, msg: Msg) -> AppState {
        match msg {
            Msg::Identity { account_id } => AppState { account_id: account_id@, ..self },
            Msg::Started { req } => if req == self.req {
                AppState { abort: Some(req as int), ..self }
            } else {
                AppState { outbox: self.outbox.push(Deed::Abort(req as int)), ..self }
            },
            Msg::Items { req, items } => if req == self.req {
                AppState {
                    items: text::texts(items@),
                    selected: if items@.len() == 0 {
                        None
                    } else {
                        Some(0)
                    },
                    loading: false,
                    ..self
                }
            } else {
                self
            },
            Msg::Line { req, line } => if req == self.req {
                self.with_line(line@)
            } else {
                self
            },
            Msg::Error { req, text } => if req == self.req || req == GLOBAL_REQ {
                AppState { status: "Error: "@ + text@, loading: false, ..self }
            } else {
                self
            },
            Msg::Done { req } => if req == self.req {
                AppState { loading: false, ..self }
            } else {
                self
            },
        }
    }
}

impl App {
    fn add_line(&mut self, line: String)
        requires
            old(self).wf(),
        ensures
            final(self).wf(),
            final(self)@ == old(self)@.with_line(line@),
    {
        self.output.push(line);
        assert(self@.output =~= old(self)@.output.push(line@));
        if self.output.len() > OUTPUT_CAP {
            let ghost full = self.output@;
            let oldest = self.output.remove(0);
            assert(self@.output =~= text::texts(full).skip(1));
            if !self.follow && self.scroll > 0 {
                self.scroll -= 1;
            }
        }
        assert(self@ =~= old(self)@.with_line(line@));
    }

    /// Takes in a message of the engine.
    pub fn on_msg(&mut self, msg: Msg)
        requires
            old(self).wf(),
        ensures
            final(self).wf(),
            final(self)@ == old(self)@.received(msg),
    {
        match msg {
            Msg::Identity { account_id } => {
                self.account_id = account_id;
            },
            Msg::Started { req } => {
                if req == self.req {
                    self.abort = Some(req);
                } else {
                    self.push_effect(Effect::Abort(req));
                }
            },
            Msg::Items { req, items } => {
                if req == self.req {
                    self.items = items;
                    self.selected = if self.items.len() == 0 {
                        None
                    } else {
                        Some(0)
                    };
                    self.loading = false;
                }
            },
            Msg::Line { req, line } => {
                if req == self.req {
                    self.add_line(line);
                }
            },
            Msg::Error { req, text } => {
                if req == self.req || req == GLOBAL_REQ {
                    let mut status = "Error: ".to_string();
                    status.append(text.as_str());
                    self.status = status;
                    self.loading = false;
                }
            },
            Msg::Done { req } => {
                if req == self.req {
                    self.loading = false;
                }
            },
        }
        assert(self@ =~= old(self)@.received(msg));
    }
}

// ── keys ────────────────────────────────────────────────────────────────────
/// The larger of a number and zero.
pub open spec fn at_least_zero(n: int) -> int {
    if n < 0 {
        0
    } else {
        n
    }
}

/// The text of an optional text, empty where there is none.
pub open spec fn or_empty(s: Option<Seq<char>>) -> Seq<char> {
    match s {
        Some(t) => t,
        None => Seq::empty(),
    }
}

impl AppState {
    /// The first line of the last screenful.
    pub open spec fn last_start(self) -> int {
        at_least_zero(self.output.len() - self.viewport_height)
    }

    /// Scrolled up by `n` lines, not past the first.
    pub open spec fn scrolled_up(self, n: int) -> AppState {
        AppState { follow: false, scroll: at_least_zero(self.scroll - n), ..self }
    }

    /// Scrolled down by `n` lines, not past the last screenful.
    pub open spec fn scrolled_down(self, n: int) -> AppState {
        AppState {
            follow: false,
            scroll: if self.scroll + n < self.last_start() {
                self.scroll + n
            } else {
                self.last_start()
            },
            ..self
        }
    }

    /// The entry above is selected.
    pub open spec fn selected_prev(self) -> AppState {
        if self.items.len() == 0 {
            self
        } else {
            AppState {
                selected: Some(
                    match self.selected {
                        Some(i) => at_least_zero(i - 1),
                        None => 0,
                    },
                ),
                ..self
            }
        }
    }

    /// The entry below is selected.
    pub open spec fn selected_next(self) -> AppState {
        if self.items.len() == 0 {
            self
        } else {
            AppState {
                selected: Some(
                    match self.selected {
                        Some(i) => if i + 1 < self.items.len() {
                            i + 1
                        } else {
                            i
                        },
                        None => 0,
                    },
                ),
                ..self
            }
        }
    }

    /// The selected entry is opened.
    pub open spec fn entered(self) -> AppState {
        match self.selected {
            None => self,
            Some(i) => {
                let item = self.items[i];
                match self.category {
                    Category::CloudWatch => match self.cw_group {
                        None => self.streams_loading(item),
                        Some(group) => {
                            let sel = if item == ALL_STREAMS@ {
                                None
                            } else {
                                Some(item)
                            };
                            AppState { cw_stream_sel: sel, ..self }.logs_loading(group, sel)
                        },
                    },
                    Category::Kinesis => match self.kin_stream {
                        None => self,
                        Some(stream) => {
                            let sel = if item == ALL_SHARDS@ {
                                None
                            } else {
                                Some(item)
                            };
                            AppState { kin_shard_sel: sel, ..self }.search_loading(stream, sel)
                        },
                    },
                }
            },
        }
    }

    /// The list is left for the one above it.
    pub open spec fn left(self) -> AppState {
        match self.category {
            Category::CloudWatch => if self.cw_group is Some {
                self.groups_loading()
            } else {
                self
            },
            Category::Kinesis => self.asking_stream(),
        }
    }

    /// The list is asked for again.
    pub open spec fn reloaded(self) -> AppState {
        match self.category {
            Category::CloudWatch => match self.cw_group {
                Some(group) => self.streams_loading(group),
                None => self.groups_loading(),
            },
            Category::Kinesis => match self.kin_stream {
                Some(stream) => self.shards_loading(stream),
                None => self,
            },
        }
    }

    /// The running command is given up.
    pub open spec fn cancelled(self) -> AppState {
        AppState { loading: false, ..self.superseded() }
    }

    /// The output is left for the list.
    pub open spec fn output_left(self) -> AppState {
        AppState { watching: false, pane: Pane::List, ..self.cancelled() }
    }

    /// The other category is shown.
    pub open spec fn switched(self) -> AppState {
        match self.category {
            Category::CloudWatch => match self.kin_stream {
                Some(stream) => self.shards_loading(stream),
                None => self.asking_stream(),
            },
            Category::Kinesis => self.groups_loading(),
        }
    }

    /// What is selected is asked for again.
    pub open spec fn output_reloaded(self) -> AppState {
        match self.category {
            Category::CloudWatch => match self.cw_group {
                Some(group) => self.logs_loading(group, self.cw_stream_sel),
                None => self,
            },
            Category::Kinesis => match self.kin_stream {
                Some(stream) => self.search_loading(stream, self.kin_shard_sel),
                None => self,
            },
        }
    }

    /// Watching is switched on or off.
    pub open spec fn watch_toggled(self) -> AppState {
        AppState { watching: !self.watching, ..self }.output_reloaded()
    }

    /// A filter is asked for.
    pub open spec fn asking_filter(self) -> AppState {
        match self.category {
            Category::CloudWatch => AppState {
                pane: Pane::Input,
                input_kind: InputKind::CwFilter,
                input: or_empty(self.cw_filter),
                input_prompt: "CloudWatch filter pattern (empty = none)"@,
                ..self
            },
            Category::Kinesis => AppState {
                pane: Pane::Input,
                input_kind: InputKind::KinFilter,
                input: or_empty(self.kin_filter),
                input_prompt: "Kinesis filter substring (empty = none)"@,
                ..self
            },
        }
    }

    /// The name of a stream is asked for. A watched view is left, so its command ends.
    #[verifier::opaque]
    pub open spec fn asking_stream(self) -> AppState {
        AppState {
            watching: false,
            category: Category::Kinesis,
            pane: Pane::Input,
            input_kind: InputKind::KinesisStream,
            input: or_empty(self.kin_stream),
            input_prompt: "Kinesis stream name"@,
            ..self.cancelled()
        }
    }

    /// The input without the whitespace at its ends.
    pub open spec fn value(self) -> Seq<char> {
        text::trimmed_end(text::trimmed_start(self.input))
    }

    /// The input as a filter: none where it is empty.
    pub open spec fn filter_value(self) -> Option<Seq<char>> {
        if self.value().len() == 0 {
            None
        } else {
            Some(self.value())
        }
    }

    /// The input is taken.
    pub open spec fn submitted(self) -> AppState {
        match self.input_kind {
            InputKind::KinesisStream => if self.value().len() == 0 {
                AppState { status: "Enter a stream name"@, ..self }
            } else {
                self.shards_loading(self.value())
            },
            InputKind::CwFilter => {
                let s = AppState { cw_filter: self.filter_value(), ..self };
                match self.cw_group {
                    Some(group) => s.logs_loading(group, self.cw_stream_sel),
                    None => AppState { pane: Pane::Output, ..s },
                }
            },
            InputKind::KinFilter => {
                let s = AppState { kin_filter: self.filter_value(), ..self };
                match self.kin_stream {
                    Some(stream) => s.search_loading(stream, self.kin_shard_sel),
                    None => AppState { pane: Pane::Output, ..s },
                }
            },
        }
    }

    /// The input is given up.
    pub open spec fn input_cancelled(self) -> AppState {
        match self.input_kind {
            InputKind::KinesisStream => match self.kin_stream {
                Some(stream) => self.shards_loading(stream),
                None => self.groups_loading(),
            },
            _ => AppState { pane: Pane::Output, ..self },
        }
    }

    pub open spec fn quitting(self) -> AppState {
        AppState { should_quit: true, ..self }
    }

    /// The state after a key over the input line.
    pub open spec fn input_key(self, key: Key) -> AppState {
        match key {
            Key::Enter => self.submitted(),
            Key::Esc => self.input_cancelled(),
            Key::Backspace => AppState {
                input: if self.input.len() == 0 {
                    self.input
                } else {
                    self.input.drop_last()
                },
                ..self
            },
            Key::Char(c) => AppState { input: self.input.push(c), ..self },
            _ => self,
        }
    }

    /// The state after a key over a list.
    pub open spec fn list_key(self, key: Key) -> AppState {
        match key {
            Key::Tab => self.switched(),
            Key::Up | Key::Char('k') => self.selected_prev(),
            Key::Down | Key::Char('j') => self.selected_next(),
            Key::Enter | Key::Right | Key::Char('l') => self.entered(),
            Key::Esc | Key::Backspace | Key::Left | Key::Char('h') => self.left(),
            Key::Char('r') => self.reloaded(),
            Key::Char('q') => self.quitting(),
            _ => self,
        }
    }

    /// The state after a key over output.
    pub open spec fn output_key(self, key: Key) -> AppState {
        match key {
            Key::Tab => self.switched(),
            Key::Up | Key::Char('k') => self.scrolled_up(1),
            Key::Down | Key::Char('j') => self.scrolled_down(1),
            Key::PageUp => self.scrolled_up(10),
            Key::PageDown => self.scrolled_down(10),
            Key::Char('g') => AppState { follow: false, scroll: 0, ..self },
            Key::Char('G') => AppState { follow: true, ..self },
            Key::Char('w') => self.watch_toggled(),
            Key::Char('/') => self.asking_filter(),
            Key::Esc | Key::Backspace | Key::Left => self.output_left(),
            Key::Char('q') => self.quitting(),
            _ => self,
        }
    }

    /// The state after a key, with or without control.
    pub open spec fn pressed(self, key: Key, control: bool) -> AppState {
        if control && key == Key::Char('c') {
            self.quitting()
        } else {
            match self.pane {
                Pane::Input => self.input_key(key),
                Pane::List => self.list_key(key),
                Pane::Output => self.output_key(key),
            }
        }
    }
}

impl App {
    /// Takes in a key, with or without control.
    pub fn on_key(&mut self, key: Key, control: bool)
        requires
            old(self).wf(),
            old(self)@.req < u64::MAX,
        ensures
            final(self).wf(),
            final(self)@ == old(self)@.pressed(key, control),
    {
        if control && key == Key::Char('c') {
            self.should_quit = true;
            return;
        }
        match self.pane {
            Pane::Input => self.on_key_input(key),
            Pane::List => self.on_key_list(key),
            Pane::Output => self.on_key_output(key),
        }
    }

    fn on_key_input(&mut self, key: Key)
        requires
            old(self).wf(),
            old(self)@.pane == Pane::Input,
            old(self)@.req < u64::MAX,
        ensures
            final(self).wf(),
            final(self)@ == old(self)@.input_key(key),
    {
        match key {
            Key::Enter => self.submit_input(),
            Key::Esc => self.cancel_input(),
            Key::Backspace => {
                let _ = self.input.pop();
            },
            Key::Char(c) => self.input.push(c),
            _ => {},
        }
    }

    fn on_key_list(&mut self, key: Key)
        requires
            old(self).wf(),
            old(self)@.pane == Pane::List,
            old(self)@.req < u64::MAX,
        ensures
            final(self).wf(),
            final(self)@ == old(self)@.list_key(key),
    {
        match key {
            Key::Char('q') => {
                self.should_quit = true;
            },
            Key::Tab => self.switch_category(),
            Key::Up | Key::Char('k') => self.list_prev(),
            Key::Down | Key::Char('j') => self.list_next(),
            Key::Enter | Key::Right | Key::Char('l') => self.list_enter(),
            Key::Esc | Key::Backspace | Key::Left | Key::Char('h') => self.list_back(),
            Key::Char('r') => self.list_reload(),
            _ => {},
        }
    }

    fn on_key_output(&mut self, key: Key)
        requires
            old(self).wf(),
            old(self)@.pane == Pane::Output,
            old(self)@.req < u64::MAX,
        ensures
            final(self).wf(),
            final(self)@ == old(self)@.output_key(key),
    {
        match key {
            Key::Char('q') => {
                self.should_quit = true;
            },
            Key::Tab => self.switch_category(),
            Key::Up | Key::Char('k') => self.scroll_up(1),
            Key::Down | Key::Char('j') => self.scroll_down(1),
            Key::PageUp => self.scroll_up(10),
            Key::PageDown => self.scroll_down(10),
            Key::Char('g') => {
                self.follow = false;
                self.scroll = 0;
            },
            Key::Char('G') => {
                self.follow = true;
            },
            Key::Char('w') => self.toggle_watch(),
            Key::Char('/') => self.open_filter_input(),
            Key::Esc | Key::Backspace | Key::Left => self.output_back(),
            _ => {},
        }
    }

    fn scroll_up(&mut self, n: usize)
        requires
            old(self).wf(),
        ensures
            final(self).wf(),
            final(self)@ == old(self)@.scrolled_up(n as int),
    {
        self.follow = false;
        self.scroll = self.scroll.saturating_sub(n);
    }

    fn scroll_down(&mut self, n: usize)
        requires
            old(self).wf(),
            n <= 10,
        ensures
            final(self).wf(),
            final(self)@ == old(self)@.scrolled_down(n as int),
    {
        self.follow = false;
        assert(self.output@.len() == old(self)@.output.len());
        let max_start = self.output.len().saturating_sub(self.viewport_height);
        let target: usize = self.scroll + n;
        self.scroll = if target < max_start {
            target
        } else {
            max_start
        };
    }

    fn list_prev(&mut self)
        requires
            old(self).wf(),
        ensures
            final(self).wf(),
            final(self)@ == old(self)@.selected_prev(),
    {
        assert(self.items@.len() == old(self)@.items.len());
        if self.items.len() == 0 {
            return;
        }
        let i: usize = match self.selected {
            Some(i) => i.saturating_sub(1),
            None => 0,
        };
        self.selected = Some(i);
    }

    fn list_next(&mut self)
        requires
            old(self).wf(),
        ensures
            final(self).wf(),
            final(self)@ == old(self)@.selected_next(),
    {
        assert(self.items@.len() == old(self)@.items.len());
        if self.items.len() == 0 {
            return;
        }
        let i: usize = match self.selected {
            Some(i) => if i + 1 < self.items.len() {
                i + 1
            } else {
                i
            },
            None => 0,
        };
        self.selected = Some(i);
    }

    fn list_enter(&mut self)
        requires
            old(self).wf(),
            old(self)@.pane == Pane::List,
            old(self)@.req < u64::MAX,
        ensures
            final(self).wf(),
            final(self)@ == old(self)@.entered(),
    {
        assert(self.items@.len() == old(self)@.items.len());
        let item = match self.selected {
            Some(i) => self.items[i].clone(),
            None => {
                return;
            },
        };
        match self.category {
            Category::CloudWatch => match text::copy_opt(&self.cw_group) {
                None => self.load_streams(item),
                Some(group) => {
                    if text::same_text(item.as_str(), ALL_STREAMS) {
                        self.cw_stream_sel = None;
                        self.load_logs(group, None);
                    } else {
                        self.cw_stream_sel = Some(item.clone());
                        self.load_logs(group, Some(item));
                    }
                },
            },
            Category::Kinesis => {
                let stream = match text::copy_opt(&self.kin_stream) {
                    Some(stream) => stream,
                    None => {
                        return;
                    },
                };
                if text::same_text(item.as_str(), ALL_SHARDS) {
                    self.kin_shard_sel = None;
                    self.load_search(stream, None);
                } else {
                    self.kin_shard_sel = Some(item.clone());
                    self.load_search(stream, Some(item));
                }
            },
        }
    }

    fn list_back(&mut self)
        requires
            old(self).wf(),
            old(self)@.req < u64::MAX,
        ensures
            final(self).wf(),
            final(self)@ == old(self)@.left(),
    {
        match self.category {
            Category::CloudWatch => {
                if self.cw_group.is_some() {
                    self.load_groups();
                }
            },
            Category::Kinesis => self.open_stream_input(),
        }
    }

    fn list_reload(&mut self)
        requires
            old(self).wf(),
            old(self)@.req < u64::MAX,
        ensures
            final(self).wf(),
            final(self)@ == old(self)@.reloaded(),
    {
        match self.category {
            Category::CloudWatch => match text::copy_opt(&self.cw_group) {
                Some(group) => self.load_streams(group),
                None => self.load_groups(),
            },
            Category::Kinesis => {
                if let Some(stream) = text::copy_opt(&self.kin_stream) {
                    self.load_shards(stream);
                }
            },
        }
    }

    /// Gives up the running command, and makes what it still sends stale.
    fn cancel_current(&mut self)
        requires
            old(self)@.req < u64::MAX,
        ensures
            final(self)@ == old(self)@.cancelled(),
    {
        let _ = self.start();
        self.loading = false;
    }

    fn output_back(&mut self)
        requires
            old(self).wf(),
            old(self)@.pane == Pane::Output,
            old(self)@.req < u64::MAX,
        ensures
            final(self).wf(),
            final(self)@ == old(self)@.output_left(),
    {
        self.cancel_current();
        self.watching = false;
        self.pane = Pane::List;
    }

    fn switch_category(&mut self)
        requires
            old(self).wf(),
            old(self)@.req < u64::MAX,
        ensures
            final(self).wf(),
            final(self)@ == old(self)@.switched(),
    {
        match self.category {
            Category::CloudWatch => match text::copy_opt(&self.kin_stream) {
                Some(stream) => self.load_shards(stream),
                None => self.open_stream_input(),
            },
            Category::Kinesis => self.load_groups(),
        }
    }

    fn toggle_watch(&mut self)
        requires
            old(self).wf(),
            old(self)@.req < u64::MAX,
        ensures
            final(self).wf(),
            final(self)@ == old(self)@.watch_toggled(),
    {
        self.watching = !self.watching;
        match self.category {
            Category::CloudWatch => {
                if let Some(group) = text::copy_opt(&self.cw_group) {
                    let sel = text::copy_opt(&self.cw_stream_sel);
                    self.load_logs(group, sel);
                }
            },
            Category::Kinesis => {
                if let Some(stream) = text::copy_opt(&self.kin_stream) {
                    let shard = text::copy_opt(&self.kin_shard_sel);
                    self.load_search(stream, shard);
                }
            },
        }
    }

    fn open_filter_input(&mut self)
        requires
            old(self).wf(),
            old(self)@.pane == Pane::Output,
        ensures
            final(self).wf(),
            final(self)@ == old(self)@.asking_filter(),
    {
        self.pane = Pane::Input;
        match self.category {
            Category::CloudWatch => {
                self.input_kind = InputKind::CwFilter;
                self.input = text::copy_or_empty(&self.cw_filter);
                self.input_prompt = "CloudWatch filter pattern (empty = none)".to_string();
            },
            Category::Kinesis => {
                self.input_kind = InputKind::KinFilter;
                self.input = text::copy_or_empty(&self.kin_filter);
                self.input_prompt = "Kinesis filter substring (empty = none)".to_string();
            },
        }
    }

    fn open_stream_input(&mut self)
        requires
            old(self).wf(),
            old(self)@.req < u64::MAX,
        ensures
            final(self).wf(),
            final(self)@ == old(self)@.asking_stream(),
    {
        reveal(AppState::asking_stream);
        self.cancel_current();
        self.watching = false;
        self.category = Category::Kinesis;
        self.pane = Pane::Input;
        self.input_kind = InputKind::KinesisStream;
        self.input = text::copy_or_empty(&self.kin_stream);
        self.input_prompt = "Kinesis stream name".to_string();
    }

    fn submit_input(&mut self)
        requires
            old(self).wf(),
            old(self)@.pane == Pane::Input,
            old(self)@.req < u64::MAX,
        ensures
            final(self).wf(),
            final(self)@ == old(self)@.submitted(),
    {
        let value = text::trim(self.input.as_str()).to_string();
        match self.input_kind {
            InputKind::KinesisStream => {
                if value.as_str().is_empty() {
                    self.status = "Enter a stream name".to_string();
                    return;
                }
                self.load_shards(value);
            },
            InputKind::CwFilter => {
                self.cw_filter = if value.as_str().is_empty() {
                    None
                } else {
                    Some(value)
                };
                match text::copy_opt(&self.cw_group) {
                    Some(group) => {
                        let sel = text::copy_opt(&self.cw_stream_sel);
                        self.load_logs(group, sel);
                    },
                    None => {
                        self.pane = Pane::Output;
                    },
                }
            },
            InputKind::KinFilter => {
                self.kin_filter = if value.as_str().is_empty() {
                    None
                } else {
                    Some(value)
                };
                match text::copy_opt(&self.kin_stream) {
                    Some(stream) => {
                        let shard = text::copy_opt(&self.kin_shard_sel);
                        self.load_search(stream, shard);
                    },
                    None => {
                        self.pane = Pane::Output;
                    },
                }
            },
        }
    }

    fn cancel_input(&mut self)
        requires
            old(self).wf(),
            old(self)@.pane == Pane::Input,
            old(self)@.req < u64::MAX,
        ensures
            final(self).wf(),
            final(self)@ == old(self)@.input_cancelled(),
    {
        match self.input_kind {
            InputKind::KinesisStream => match text::copy_opt(&self.kin_stream) {
                Some(stream) => self.load_shards(stream),
                None => self.load_groups(),
            },
            InputKind::CwFilter | InputKind::KinFilter => {
                self.pane = Pane::Output;
            },
        }
    }
}

// ── the screen ──────────────────────────────────────────────────────────────
/// The color of a part of the status bar.
#[derive(Debug, Clone, Copy, PartialEq, Eq, Structural)]
pub enum Tone {
    /// The bar's own.
    Plain,
    Yellow,
    Red,
    White,
}

/// A part of the status bar.
#[derive(Debug)]
pub struct StatusSpan {
    pub text: String,
    pub tone: Tone,
}

/// What the main area shows.
#[derive(Debug)]
pub enum Body {
    /// A text in place of contents, with its lines wrapped or not.
    Note { text: String, wrap: bool },
    /// A list with its selection.
    List { items: Vec<String>, selected: Option<usize> },
    /// Lines of output.
    Lines { lines: Vec<String> },
    /// The input line, and how many characters of input stand before the cursor.
    Input { line: String, cursor: u16 },
}

/// Everything that is on the screen.
#[derive(Debug)]
pub struct Screen {
    /// Which tab is selected.
    pub tab: usize,
    pub title: String,
    pub hints: &'static str,
    pub body: Body,
    pub status: Vec<StatusSpan>,
}

/// What the main area says.
pub ghost enum Shown {
    Note(Seq<char>, bool),
    List(Seq<Seq<char>>, Option<int>),
    Lines(Seq<Seq<char>>),
    Input(Seq<char>, int),
}

impl View for Body {
    type V = Shown;

    open spec fn view(&self) -> Shown {
        match *self {
            Body::Note { text, wrap } => Shown::Note(text@, wrap),
            Body::List { items, selected } => Shown::List(
                text::texts(items@),
                opt_number(selected),
            ),
            Body::Lines { lines } => Shown::Lines(text::texts(lines@)),
            Body::Input { line, cursor } => Shown::Input(line@, cursor as int),
        }
    }
}

/// What the parts of the status bar say, with their colors.
pub open spec fn spans(status: Seq<StatusSpan>) -> Seq<(Seq<char>, Tone)> {
    status.map_values(|s: StatusSpan| (s.text@, s.tone))
}

impl AppState {
    /// The title of the pane.
    pub open spec fn main_title(self) -> Seq<char> {
        match self.pane {
            Pane::List => self.list_title,
            Pane::Output => self.output_title,
            Pane::Input => self.input_prompt,
        }
    }

    /// The title as it stands over the main area: a list that has entries is counted.
    pub open spec fn title(self) -> Seq<char> {
        if self.pane == Pane::List && self.items.len() > 0 {
            " "@ + self.list_title + " ("@ + text::decimal_text(self.items.len()) + ") "@
        } else {
            " "@ + self.main_title() + " "@
        }
    }

    /// The keys that mean something.
    pub open spec fn key_hints(self) -> Seq<char> {
        match self.pane {
            Pane::Input => " Enter submit · Esc cancel "@,
            Pane::List => match self.category {
                Category::CloudWatch => if self.cw_group is Some {
                    " ↑↓ move · Enter logs · Esc groups · r reload · Tab switch · q quit "@
                } else {
                    " ↑↓ move · Enter streams · r reload · Tab switch · q quit "@
                },
                Category::Kinesis => {
                    " ↑↓ move · Enter search · Esc stream · r reload · Tab switch · q quit "@
                },
            },
            Pane::Output => {
                " ↑↓ scroll · G follow · w watch · / filter · Esc back · Tab switch · q quit "@
            },
        }
    }

    /// What stands in place of a list that came back empty.
    pub open spec fn list_empty_hint(self) -> Seq<char> {
        match self.category {
            Category::CloudWatch => if self.cw_group is Some {
                "  No streams in this log group."@
            } else {
                "  No log groups found."@
            },
            Category::Kinesis => "  No shards found for this stream."@,
        }
    }

    /// What stands in place of output that has no lines.
    pub open spec fn output_empty_hint(self) -> Seq<char> {
        "  "@ + match self.category {
            Category::CloudWatch => if self.cw_stream_sel is Some {
                "No log events found for this stream."@
            } else {
                "No log events in the last 30 minutes for this group."@
            },
            Category::Kinesis => "No matching records in the selected window."@,
        } + "\n\n  Press  w  to watch (live tail)   ·   /  to filter   ·   Esc  to go back."@
    }

    /// How many lines of output are shown at most.
    pub open spec fn screenful(self) -> int {
        if self.viewport_height < 1 {
            1
        } else {
            self.viewport_height
        }
    }

    /// The first line that is shown: of the last screenful when following, and never behind it.
    pub open spec fn first_visible(self) -> int {
        let last = at_least_zero(self.output.len() - self.screenful());
        if self.follow || last < self.scroll {
            last
        } else {
            self.scroll
        }
    }

    /// The lines that are shown.
    pub open spec fn visible(self) -> Seq<Seq<char>> {
        let start = self.first_visible();
        let end = if start + self.screenful() < self.output.len() {
            start + self.screenful()
        } else {
            self.output.len() as int
        };
        self.output.subrange(start, end)
    }

    /// What the main area shows.
    pub open spec fn body(self) -> Shown {
        match self.pane {
            Pane::List => if self.items.len() == 0 {
                Shown::Note(
                    if self.loading {
                        "  Loading…"@
                    } else {
                        self.list_empty_hint()
                    },
                    false,
                )
            } else {
                Shown::List(self.items, self.selected)
            },
            Pane::Output => if self.output.len() == 0 {
                Shown::Note(
                    if self.loading {
                        "  Loading…"@
                    } else {
                        self.output_empty_hint()
                    },
                    true,
                )
            } else {
                Shown::Lines(self.visible())
            },
            Pane::Input => Shown::Input("> "@ + self.input, (self.input.len() % 0x10000) as int),
        }
    }

    /// The parts of the status bar.
    pub open spec fn status_bar(self) -> Seq<(Seq<char>, Tone)> {
        seq![(" Account "@ + self.account_id + " "@, Tone::Plain)] + if self.loading {
            seq![("· loading "@, Tone::Plain)]
        } else {
            Seq::empty()
        } + if self.watching {
            seq![("· watching "@, Tone::Yellow)]
        } else {
            Seq::empty()
        } + if self.status.len() > 0 {
            seq![
                (
                    "· "@ + self.status + " "@,
                    if text::occurs_at(self.status, "Error"@, 0) {
                        Tone::Red
                    } else {
                        Tone::White
                    },
                ),
            ]
        } else {
            Seq::empty()
        }
    }
}

impl App {
    /// Whether the user wants to leave.
    pub fn should_quit(&self) -> (res: bool)
        ensures
            res == self@.should_quit,
    {
        self.should_quit
    }

    /// The id of the command given last.
    pub fn request(&self) -> (res: u64)
        ensures
            res == self@.req,
    {
        self.req
    }

    /// The title of the pane.
    pub fn main_title(&self) -> (res: String)
        ensures
            res@ == self@.main_title(),
    {
        match self.pane {
            Pane::List => self.list_title.clone(),
            Pane::Output => self.output_title.clone(),
            Pane::Input => self.input_prompt.clone(),
        }
    }

    /// The keys that mean something.
    pub fn key_hints(&self) -> (res: &'static str)
        ensures
            res@ == self@.key_hints(),
    {
        match self.pane {
            Pane::Input => " Enter submit · Esc cancel ",
            Pane::List => match self.category {
                Category::CloudWatch => if self.cw_group.is_some() {
                    " ↑↓ move · Enter logs · Esc groups · r reload · Tab switch · q quit "
                } else {
                    " ↑↓ move · Enter streams · r reload · Tab switch · q quit "
                },
                Category::Kinesis => {
                    " ↑↓ move · Enter search · Esc stream · r reload · Tab switch · q quit "
                },
            },
            Pane::Output => {
                " ↑↓ scroll · G follow · w watch · / filter · Esc back · Tab switch · q quit "
            },
        }
    }

    /// What stands in place of a list that came back empty.
    pub fn list_empty_hint(&self) -> (res: &'static str)
        ensures
            res@ == self@.list_empty_hint(),
    {
        match self.category {
            Category::CloudWatch => if self.cw_group.is_some() {
                "  No streams in this log group."
            } else {
                "  No log groups found."
            },
            Category::Kinesis => "  No shards found for this stream.",
        }
    }

    /// What stands in place of output that has no lines.
    pub fn output_empty_hint(&self) -> (res: String)
        ensures
            res@ == self@.output_empty_hint(),
    {
        let what = match self.category {
            Category::CloudWatch => if self.cw_stream_sel.is_some() {
                "No log events found for this stream."
            } else {
                "No log events in the last 30 minutes for this group."
            },
            Category::Kinesis => "No matching records in the selected window.",
        };
        let mut out = "  ".to_string();
        out.append(what);
        out.append(
            "\n\n  Press  w  to watch (live tail)   ·   /  to filter   ·   Esc  to go back.",
        );
        assert(out@ == self@.output_empty_hint());
        out
    }

    fn title(&self) -> (res: String)
        ensures
            res@ == self@.title(),
    {
        let mut out = " ".to_string();
        assert(self.items@.len() == self@.items.len());
        match self.pane {
            Pane::List if self.items.len() > 0 => {
                out.append(self.list_title.as_str());
                out.append(" (");
                out.append(text::decimal(self.items.len() as u64).as_str());
                out.append(") ");
            },
            _ => {
                out.append(self.main_title().as_str());
                out.append(" ");
            },
        }
        assert(out@ == self@.title());
        out
    }

    fn visible_lines(&self) -> (res: Vec<String>)
        requires
            self.wf(),
            self@.viewport_height <= u16::MAX,
        ensures
            text::texts(res@) == self@.visible(),
    {
        assert(self.output@.len() == self@.output.len());
        let total: usize = self.output.len();
        let h: usize = if self.viewport_height < 1 {
            1
        } else {
            self.viewport_height
        };
        let max_start = total.saturating_sub(h);
        let start: usize = if self.follow || max_start < self.scroll {
            max_start
        } else {
            self.scroll
        };
        let end: usize = if start + h < total {
            start + h
        } else {
            total
        };
        let mut lines: Vec<String> = Vec::new();
        let mut i: usize = start;
        while i < end
            invariant
                start <= i <= end <= self.output@.len(),
                lines@ == self.output@.subrange(start as int, i as int),
            decreases end - i,
        {
            lines.push(self.output[i].clone());
            i += 1;
        }
        assert(text::texts(lines@) == self@.output.subrange(start as int, end as int));
        lines
    }

    fn main_area(&self) -> (res: Body)
        requires
            self.wf(),
            self@.viewport_height <= u16::MAX,
        ensures
            res@ == self@.body(),
    {
        assert(self.items@.len() == self@.items.len());
        assert(self.output@.len() == self@.output.len());
        match self.pane {
            Pane::List => if self.items.len() == 0 {
                let text = if self.loading {
                    "  Loading…".to_string()
                } else {
                    self.list_empty_hint().to_string()
                };
                Body::Note { text, wrap: false }
            } else {
                Body::List { items: text::copy_all(&self.items), selected: self.selected }
            },
            Pane::Output => if self.output.len() == 0 {
                let text = if self.loading {
                    "  Loading…".to_string()
                } else {
                    self.output_empty_hint()
                };
                Body::Note { text, wrap: true }
            } else {
                Body::Lines { lines: self.visible_lines() }
            },
            Pane::Input => {
                let mut line = "> ".to_string();
                line.append(self.input.as_str());
                let count = self.input.as_str().unicode_len();
                Body::Input { line, cursor: (count % 0x10000) as u16 }
            },
        }
    }

    fn status_bar(&self) -> (res: Vec<StatusSpan>)
        ensures
            spans(res@) == self@.status_bar(),
    {
        let mut parts: Vec<StatusSpan> = Vec::new();
        let mut account = " Account ".to_string();
        account.append(self.account_id.as_str());
        account.append(" ");
        parts.push(StatusSpan { text: account, tone: Tone::Plain });
        assert(spans(parts@) == seq![(" Account "@ + self@.account_id + " "@, Tone::Plain)]);
        if self.loading {
            let ghost before = parts@;
            parts.push(StatusSpan { text: "· loading ".to_string(), tone: Tone::Plain });
            assert(spans(parts@) == spans(before).push(("· loading "@, Tone::Plain)));
        }
        if self.watching {
            let ghost before = parts@;
            parts.push(StatusSpan { text: "· watching ".to_string(), tone: Tone::Yellow });
            assert(spans(parts@) == spans(before).push(("· watching "@, Tone::Yellow)));
        }
        if !self.status.as_str().is_empty() {
            let tone = if text::has_prefix(self.status.as_str(), "Error") {
                Tone::Red
            } else {
                Tone::White
            };
            let mut status = "· ".to_string();
            status.append(self.status.as_str());
            status.append(" ");
            let ghost before = parts@;
            parts.push(StatusSpan { text: status, tone });
            assert(spans(parts@) == spans(before).push(("· "@ + self@.status + " "@, tone)));
        }
        assert(spans(parts@) == self@.status_bar());
        parts
    }

    /// What to show, the main area being `height` rows high with its frame.
    pub fn draw(&mut self, height: u16) -> (res: Screen)
        requires
            old(self).wf(),
        ensures
            final(self).wf(),
            final(self)@ == (AppState {
                viewport_height: at_least_zero(height - 2),
                ..old(self)@
            }),
            res.tab == match old(self)@.category {
                Category::CloudWatch => 0int,
                Category::Kinesis => 1,
            },
            res.title@ == final(self)@.title(),
            res.hints@ == final(self)@.key_hints(),
            res.body@ == final(self)@.body(),
            spans(res.status@) == final(self)@.status_bar(),
    {
        self.viewport_height = height.saturating_sub(2) as usize;
        let tab: usize = match self.category {
            Category::CloudWatch => 0,
            Category::Kinesis => 1,
        };
        Screen {
            tab,
            title: self.title(),
            hints: self.key_hints(),
            body: self.main_area(),
            status: self.status_bar(),
        }
    }
}

// ── laws ────────────────────────────────────────────────────────────────────
/// A message answers the command given last, or none in particular.
pub open spec fn is_current(s: AppState, msg: Msg) -> bool {
    match msg {
        Msg::Identity { .. } => true,
        Msg::Started { req } => req == s.req,
        Msg::Items { req, .. } => req == s.req,
        Msg::Line { req, .. } => req == s.req,
        Msg::Error { req, .. } => req == s.req || req == GLOBAL_REQ,
        Msg::Done { req } => req == s.req,
    }
}

/// What a superseded command still sends changes nothing; if it only starts now, it is aborted.
pub proof fn law_stale_messages_change_nothing(s: AppState, msg: Msg)
    requires
        !is_current(s, msg),
    ensures
        s.received(msg) == match msg {
            Msg::Started { req } => AppState {
                outbox: s.outbox.push(Deed::Abort(req as int)),
                ..s
            },
            _ => s,
        },
{
}

/// The id of the command that a message answers.
pub open spec fn answers(msg: Msg) -> Option<int> {
    match msg {
        Msg::Identity { .. } => None,
        Msg::Started { req } => Some(req as int),
        Msg::Items { req, .. } => Some(req as int),
        Msg::Line { req, .. } => Some(req as int),
        Msg::Error { req, .. } => Some(req as int),
        Msg::Done { req } => Some(req as int),
    }
}

/// Once a command is superseded, whatever it and the commands before it still send is stale.
pub proof fn law_superseded_commands_are_stale(s: AppState, msg: Msg)
    requires
        answers(msg) matches Some(r) && GLOBAL_REQ < r <= s.req,
    ensures
        !is_current(s.superseded(), msg),
        !is_current(s.cancelled(), msg),
{
}

/// The status bar always begins with the account.
pub proof fn law_status_bar_shows_the_account(s: AppState)
    ensures
        s.status_bar().len() >= 1,
        s.status_bar()[0] == (" Account "@ + s.account_id + " "@, Tone::Plain),
{
}

/// Messages neither move the user nor give commands.
pub proof fn law_messages_do_not_navigate(s: AppState, msg: Msg)
    ensures
        ({
            let t = s.received(msg);
            &&& t.category == s.category && t.pane == s.pane && t.req == s.req
            &&& t.cw_group == s.cw_group && t.kin_stream == s.kin_stream
            &&& t.input == s.input && t.should_quit == s.should_quit
            &&& t.watching == s.watching && t.follow == s.follow
            &&& forall|r: engine::Request|
                #[trigger] t.outbox.contains(Deed::Send(r)) ==> s.outbox.contains(Deed::Send(r))
        }),
{
    let t = s.received(msg);
    assert forall|r: engine::Request| #[trigger] t.outbox.contains(Deed::Send(r)) implies
        s.outbox.contains(Deed::Send(r)) by {
        let k = choose|k: int| 0 <= k < t.outbox.len() && t.outbox[k] == Deed::Send(r);
        assert(s.outbox[k] == Deed::Send(r));
    }
}

/// The change took no new id, sent nothing and aborted nothing; or it took the next id, aborted
/// what ran, and then sent at most one command, which has that id.
pub open spec fn gives_one_command(s: AppState, t: AppState) -> bool {
    ||| t.req == s.req && t.outbox == s.outbox && t.abort == s.abort
    ||| {
        &&& t.req == s.req + 1
        &&& t.abort is None
        &&& t.outbox == s.outbox + abort_of(s) || exists|r: engine::Request|
            #[trigger] r.id() == t.req && t.outbox == (s.outbox + abort_of(s)).push(Deed::Send(r))
    }
}

/// The abort of the running command, if one runs.
pub open spec fn abort_of(s: AppState) -> Seq<Deed> {
    match s.abort {
        Some(r) => seq![Deed::Abort(r)],
        None => Seq::empty(),
    }
}

proof fn lemma_superseded_outbox(s: AppState)
    ensures
        s.superseded().outbox == s.outbox + abort_of(s),
{
    assert(s.superseded().outbox == s.outbox + abort_of(s));
}

proof fn lemma_groups_loading(s: AppState)
    requires
        s.wf(),
    ensures
        s.groups_loading().wf(),
        gives_one_command(s, s.groups_loading()),
{
    reveal(AppState::groups_loading);
    lemma_superseded_outbox(s);
    assert(engine::Request::Groups { req: s.req + 1 }.id() == s.req + 1);
}

proof fn lemma_streams_loading(s: AppState, group: Seq<char>)
    requires
        s.wf(),
    ensures
        s.streams_loading(group).wf(),
        gives_one_command(s, s.streams_loading(group)),
{
    reveal(AppState::streams_loading);
    lemma_superseded_outbox(s);
    assert(engine::Request::Streams { req: s.req + 1, group }.id() == s.req + 1);
}

proof fn lemma_logs_loading(s: AppState, group: Seq<char>, stream: Option<Seq<char>>)
    requires
        s.wf(),
        s.cw_group is Some,
    ensures
        s.logs_loading(group, stream).wf(),
        gives_one_command(s, s.logs_loading(group, stream)),
        s.logs_loading(group, stream).watching == s.watching,
        s.logs_loading(group, stream).cw_filter == s.cw_filter,
        s.logs_loading(group, stream).category == Category::CloudWatch,
{
    reveal(AppState::logs_loading);
    lemma_superseded_outbox(s);
    assert(engine::Request::Logs {
        req: s.req + 1,
        group,
        stream,
        filter: s.cw_filter,
        watch: s.watching,
    }.id() == s.req + 1);
}

proof fn lemma_shards_loading(s: AppState, stream: Seq<char>)
    requires
        s.wf(),
    ensures
        s.shards_loading(stream).wf(),
        gives_one_command(s, s.shards_loading(stream)),
{
    reveal(AppState::shards_loading);
    lemma_superseded_outbox(s);
    assert(engine::Request::Shards { req: s.req + 1, stream }.id() == s.req + 1);
}

proof fn lemma_search_loading(s: AppState, stream: Seq<char>, shard: Option<Seq<char>>)
    requires
        s.wf(),
        s.kin_stream is Some,
    ensures
        s.search_loading(stream, shard).wf(),
        gives_one_command(s, s.search_loading(stream, shard)),
        s.search_loading(stream, shard).watching == s.watching,
        s.search_loading(stream, shard).kin_filter == s.kin_filter,
        s.search_loading(stream, shard).category == Category::Kinesis,
{
    reveal(AppState::search_loading);
    lemma_superseded_outbox(s);
    assert(engine::Request::Search {
        req: s.req + 1,
        stream,
        shard,
        filter: s.kin_filter,
        watch: s.watching,
    }.id() == s.req + 1);
}

proof fn lemma_asking_stream(s: AppState)
    requires
        s.wf(),
    ensures
        s.asking_stream().wf(),
        gives_one_command(s, s.asking_stream()),
{
    reveal(AppState::asking_stream);
    lemma_superseded_outbox(s);
}

proof fn lemma_switched(s: AppState)
    requires
        s.wf(),
    ensures
        s.switched().wf(),
        gives_one_command(s, s.switched()),
{
    lemma_groups_loading(s);
    lemma_shards_loading(s, or_empty(s.kin_stream));
    lemma_asking_stream(s);
}

proof fn lemma_entered(s: AppState)
    requires
        s.wf(),
        s.pane == Pane::List,
    ensures
        s.entered().wf(),
        gives_one_command(s, s.entered()),
{
    if let Some(i) = s.selected {
        let item = s.items[i];
        if s.category == Category::CloudWatch {
            lemma_streams_loading(s, item);
            if let Some(group) = s.cw_group {
                let sel = if item == ALL_STREAMS@ {
                    None
                } else {
                    Some(item)
                };
                lemma_logs_loading(AppState { cw_stream_sel: sel, ..s }, group, sel);
            }
        } else if let Some(stream) = s.kin_stream {
            let sel = if item == ALL_SHARDS@ {
                None
            } else {
                Some(item)
            };
            lemma_search_loading(AppState { kin_shard_sel: sel, ..s }, stream, sel);
        }
    }
}

proof fn lemma_output_reloaded(s: AppState)
    requires
        s.wf(),
    ensures
        s.output_reloaded().wf(),
        gives_one_command(s, s.output_reloaded()),
        s.output_reloaded().watching == s.watching,
{
    if s.category == Category::CloudWatch {
        if let Some(group) = s.cw_group {
            lemma_logs_loading(s, group, s.cw_stream_sel);
        }
    } else if let Some(stream) = s.kin_stream {
        lemma_search_loading(s, stream, s.kin_shard_sel);
    }
}

proof fn lemma_submitted(s: AppState)
    requires
        s.wf(),
        s.pane == Pane::Input,
    ensures
        s.submitted().wf(),
        gives_one_command(s, s.submitted()),
{
    match s.input_kind {
        InputKind::KinesisStream => {
            lemma_shards_loading(s, s.value());
        },
        InputKind::CwFilter => {
            let t = AppState { cw_filter: s.filter_value(), ..s };
            lemma_logs_loading(t, or_empty(s.cw_group), s.cw_stream_sel);
        },
        InputKind::KinFilter => {
            let t = AppState { kin_filter: s.filter_value(), ..s };
            lemma_search_loading(t, or_empty(s.kin_stream), s.kin_shard_sel);
        },
    }
}

proof fn lemma_list_key(s: AppState, key: Key)
    requires
        s.wf(),
        s.pane == Pane::List,
    ensures
        s.list_key(key).wf(),
        gives_one_command(s, s.list_key(key)),
{
    lemma_switched(s);
    lemma_entered(s);
    lemma_groups_loading(s);
    lemma_asking_stream(s);
    lemma_streams_loading(s, or_empty(s.cw_group));
    lemma_shards_loading(s, or_empty(s.kin_stream));
}

proof fn lemma_output_key(s: AppState, key: Key)
    requires
        s.wf(),
        s.pane == Pane::Output,
    ensures
        s.output_key(key).wf(),
        gives_one_command(s, s.output_key(key)),
{
    lemma_switched(s);
    lemma_output_reloaded(AppState { watching: !s.watching, ..s });
    lemma_superseded_outbox(s);
}

proof fn lemma_input_key(s: AppState, key: Key)
    requires
        s.wf(),
        s.pane == Pane::Input,
    ensures
        s.input_key(key).wf(),
        gives_one_command(s, s.input_key(key)),
{
    lemma_submitted(s);
    lemma_groups_loading(s);
    lemma_shards_loading(s, or_empty(s.kin_stream));
}

/// A key gives at most one command. The command has a new id, and whatever ran before is
/// aborted first; without a new id nothing is sent and nothing aborted.
pub proof fn law_keys_give_one_command(s: AppState, key: Key, control: bool)
    requires
        s.wf(),
    ensures
        gives_one_command(s, s.pressed(key, control)),
{
    match s.pane {
        Pane::Input => lemma_input_key(s, key),
        Pane::List => lemma_list_key(s, key),
        Pane::Output => lemma_output_key(s, key),
    }
}

/// Whatever key comes, the state stays well-formed.
pub proof fn law_keys_keep_states_well_formed(s: AppState, key: Key, control: bool)
    requires
        s.wf(),
    ensures
        s.pressed(key, control).wf(),
{
    match s.pane {
        Pane::Input => lemma_input_key(s, key),
        Pane::List => lemma_list_key(s, key),
        Pane::Output => lemma_output_key(s, key),
    }
}

/// Whatever message comes, the state stays well-formed.
pub proof fn law_messages_keep_states_well_formed(s: AppState, msg: Msg)
    requires
        s.wf(),
    ensures
        s.received(msg).wf(),
{
}

/// The output that is followed ends on the screen with its last line.
pub proof fn law_following_shows_the_end(s: AppState)
    requires
        s.wf(),
        s.follow,
        s.output.len() > 0,
    ensures
        s.visible().len() > 0,
        s.visible().last() == s.output.last(),
{
}

/// A screen is never fuller than it is high, and is full as soon as there are lines enough.
pub proof fn law_screens_are_full(s: AppState)
    requires
        s.wf(),
    ensures
        s.visible().len() <= s.screenful(),
        s.visible().len() == s.screenful() || s.visible() == s.output,
{
    if s.visible().len() != s.screenful() {
        assert(s.visible() == s.output);
    }
}

/// A filter that is asked for and given up leaves the output as it was.
pub proof fn law_given_up_filter_changes_nothing(s: AppState)
    requires
        s.wf(),
        s.pane == Pane::Output,
    ensures
        s.asking_filter().input_cancelled() == (AppState {
            input: s.asking_filter().input,
            input_prompt: s.asking_filter().input_prompt,
            input_kind: s.asking_filter().input_kind,
            ..s
        }),
{
}

/// The filter of the category that is shown.
pub open spec fn filter_of(s: AppState) -> Option<Seq<char>> {
    match s.category {
        Category::CloudWatch => s.cw_filter,
        Category::Kinesis => s.kin_filter,
    }
}

/// A filter that is taken as it was offered stays as it is.
pub proof fn law_offered_filter_is_kept(s: AppState)
    requires
        s.wf(),
        s.pane == Pane::Output,
        filter_of(s) matches Some(f) ==> f.len() > 0 && text::trimmed_end(text::trimmed_start(f))
            == f,
    ensures
        filter_of(s.asking_filter().submitted()) == filter_of(s),
{
    assert(text::trimmed_start(Seq::<char>::empty()) == Seq::<char>::empty());
    assert(text::trimmed_end(Seq::<char>::empty()) == Seq::<char>::empty());
    let t = s.asking_filter();
    if s.category == Category::CloudWatch {
        lemma_logs_loading(
            AppState { cw_filter: t.filter_value(), ..t },
            or_empty(s.cw_group),
            s.cw_stream_sel,
        );
    } else {
        lemma_search_loading(
            AppState { kin_filter: t.filter_value(), ..t },
            or_empty(s.kin_stream),
            s.kin_shard_sel,
        );
    }
}

/// Leaving output, or going to name a stream, ends what runs: it is aborted, nothing new is
/// sent, and nothing is watched.
pub proof fn law_leaving_ends_commands(s: AppState)
    requires
        s.wf(),
    ensures
        s.output_left().abort is None && s.asking_stream().abort is None,
        !s.output_left().watching && !s.asking_stream().watching,
        !s.output_left().loading && !s.asking_stream().loading,
        s.output_left().outbox == s.outbox + abort_of(s),
        s.asking_stream().outbox == s.outbox + abort_of(s),
{
    reveal(AppState::asking_stream);
    lemma_superseded_outbox(s);
}

/// Switching watching twice leaves it as it was.
pub proof fn law_toggling_twice(s: AppState)
    requires
        s.wf(),
    ensures
        s.watch_toggled().watch_toggled().watching == s.watching,
{
    lemma_output_reloaded(AppState { watching: !s.watching, ..s });
    let t = s.watch_toggled();
    lemma_output_reloaded(AppState { watching: !t.watching, ..t });
}

/// Moving down the list and up again comes back, but for the last entry.
pub proof fn law_down_and_up(s: AppState)
    requires
        s.wf(),
        s.selected matches Some(i) && i + 1 < s.items.len(),
    ensures
        s.selected_next().selected_prev() == s,
{
}

/// What is left to do outside is told one by one: a command as it was given, an abort by its id.
pub proof fn law_effects_are_told(effects: Seq<Effect>, i: int)
    ensures
        deeds(effects).len() == effects.len(),
        0 <= i < effects.len() ==> match effects[i] {
            Effect::Send(cmd) => deeds(effects)[i] == Deed::Send(cmd@),
            Effect::Abort(req) => deeds(effects)[i] == Deed::Abort(req as int),
        },
{
}

/// A new command takes the next id and aborts what runs, before anything else is sent; nothing else
/// changes.
pub proof fn law_new_commands_supersede(s: AppState)
    ensures
        ({
            let t = s.superseded();
            &&& t.req == s.req + 1 && t.abort is None
            &&& s.abort is None ==> t.outbox == s.outbox
            &&& s.abort matches Some(r) ==> t.outbox == s.outbox.push(Deed::Abort(r))
            &&& (AppState { req: s.req, abort: s.abort, outbox: s.outbox, ..t }) == s
            &&& s.cancelled() == (AppState { loading: false, ..t })
        }),
{
}

/// What stays where it is while a list or output is asked for: who the caller is, both filters,
/// whether something is watched, and the input line.
pub open spec fn keeps_settings(s: AppState, t: AppState) -> bool {
    &&& t.account_id == s.account_id && t.should_quit == s.should_quit
    &&& t.cw_filter == s.cw_filter && t.kin_filter == s.kin_filter
    &&& t.watching == s.watching
    &&& t.input == s.input && t.input_prompt == s.input_prompt && t.input_kind == s.input_kind
    &&& t.viewport_height == s.viewport_height
}

/// The command is sent under the next id, behind the abort of what runs, and its answer awaited.
pub open spec fn sends(s: AppState, t: AppState, request: engine::Request) -> bool {
    &&& t.req == s.req + 1 && t.abort is None
    &&& t.loading && t.status.len() == 0
    &&& t.outbox == match s.abort {
        Some(r) => s.outbox.push(Deed::Abort(r)).push(Deed::Send(request)),
        None => s.outbox.push(Deed::Send(request)),
    }
}

/// The command that runs is aborted, and nothing is awaited nor sent.
pub open spec fn ends_the_command(s: AppState, t: AppState) -> bool {
    &&& t.req == s.req + 1 && t.abort is None && !t.loading
    &&& t.outbox == match s.abort {
        Some(r) => s.outbox.push(Deed::Abort(r)),
        None => s.outbox,
    }
}

/// Asking for the groups empties the list under their title, leaves any group, and sends that
/// command.
pub proof fn law_groups_are_asked_for(s: AppState)
    ensures
        ({
            let t = s.groups_loading();
            &&& sends(s, t, engine::Request::Groups { req: s.req + 1 })
            &&& t.category == Category::CloudWatch && t.pane == Pane::List
            &&& t.items.len() == 0 && t.selected is None
            &&& t.list_title == "CloudWatch · Groups"@
            &&& t.cw_group is None
            &&& t.cw_stream_sel == s.cw_stream_sel && t.kin_stream == s.kin_stream
            &&& t.kin_shard_sel == s.kin_shard_sel && t.output == s.output
            &&& t.output_title == s.output_title && t.follow == s.follow && t.scroll == s.scroll
            &&& keeps_settings(s, t)
        }),
{
    reveal(AppState::groups_loading);
}

/// Asking for the streams of a group empties the list under that group's title, goes into the
/// group, and sends that command.
pub proof fn law_streams_are_asked_for(s: AppState, group: Seq<char>)
    ensures
        ({
            let t = s.streams_loading(group);
            &&& sends(s, t, engine::Request::Streams { req: s.req + 1, group })
            &&& t.category == Category::CloudWatch && t.pane == Pane::List
            &&& t.items.len() == 0 && t.selected is None
            &&& t.list_title == "CloudWatch · "@ + group + " · Streams"@
            &&& t.cw_group == Some(group)
            &&& t.cw_stream_sel == s.cw_stream_sel && t.kin_stream == s.kin_stream
            &&& t.kin_shard_sel == s.kin_shard_sel && t.output == s.output
            &&& t.output_title == s.output_title && t.follow == s.follow && t.scroll == s.scroll
            &&& keeps_settings(s, t)
        }),
{
    reveal(AppState::streams_loading);
}

/// Asking for logs empties the output under the title of the stream, or of all, follows it from its
/// start, and sends the command with the filter and the watching that are set.
pub proof fn law_logs_are_asked_for(s: AppState, group: Seq<char>, stream: Option<Seq<char>>)
    ensures
        ({
            let t = s.logs_loading(group, stream);
            &&& sends(
                s,
                t,
                engine::Request::Logs {
                    req: s.req + 1,
                    group,
                    stream,
                    filter: s.cw_filter,
                    watch: s.watching,
                },
            )
            &&& t.category == Category::CloudWatch && t.pane == Pane::Output
            &&& t.output.len() == 0 && t.follow && t.scroll == 0
            &&& stream is None ==> t.output_title == "CloudWatch · "@ + group + " · "@ + "ALL"@
            &&& stream matches Some(name) ==> t.output_title == "CloudWatch · "@ + group + " · "@
                + name
            &&& t.cw_group == s.cw_group && t.cw_stream_sel == s.cw_stream_sel
            &&& t.kin_stream == s.kin_stream && t.kin_shard_sel == s.kin_shard_sel
            &&& t.items == s.items && t.selected == s.selected && t.list_title == s.list_title
            &&& keeps_settings(s, t)
        }),
{
    reveal(AppState::logs_loading);
}

/// Asking for the shards of a stream empties the list under that stream's title, goes into the
/// stream, and sends that command.
pub proof fn law_shards_are_asked_for(s: AppState, stream: Seq<char>)
    ensures
        ({
            let t = s.shards_loading(stream);
            &&& sends(s, t, engine::Request::Shards { req: s.req + 1, stream })
            &&& t.category == Category::Kinesis && t.pane == Pane::List
            &&& t.items.len() == 0 && t.selected is None
            &&& t.list_title == "Kinesis · "@ + stream + " · Shards"@
            &&& t.kin_stream == Some(stream)
            &&& t.cw_group == s.cw_group && t.cw_stream_sel == s.cw_stream_sel
            &&& t.kin_shard_sel == s.kin_shard_sel && t.output == s.output
            &&& t.output_title == s.output_title && t.follow == s.follow && t.scroll == s.scroll
            &&& keeps_settings(s, t)
        }),
{
    reveal(AppState::shards_loading);
}

/// Asking for records empties the output under the title of the shard, or of all, follows it from
/// its start, and sends the command with the filter and the watching that are set.
pub proof fn law_records_are_asked_for(s: AppState, stream: Seq<char>, shard: Option<Seq<char>>)
    ensures
        ({
            let t = s.search_loading(stream, shard);
            &&& sends(
                s,
                t,
                engine::Request::Search {
                    req: s.req + 1,
                    stream,
                    shard,
                    filter: s.kin_filter,
                    watch: s.watching,
                },
            )
            &&& t.category == Category::Kinesis && t.pane == Pane::Output
            &&& t.output.len() == 0 && t.follow && t.scroll == 0
            &&& shard is None ==> t.output_title == "Kinesis · "@ + stream + " · "@ + "all shards"@
            &&& shard matches Some(name) ==> t.output_title == "Kinesis · "@ + stream + " · "@ + name
            &&& t.cw_group == s.cw_group && t.cw_stream_sel == s.cw_stream_sel
            &&& t.kin_stream == s.kin_stream && t.kin_shard_sel == s.kin_shard_sel
            &&& t.items == s.items && t.selected == s.selected && t.list_title == s.list_title
            &&& keeps_settings(s, t)
        }),
{
    reveal(AppState::search_loading);
}

/// Going to name a stream offers the one that was named before, ends what runs and what is watched,
/// and sends nothing.
pub proof fn law_streams_are_named(s: AppState)
    ensures
        ({
            let t = s.asking_stream();
            &&& t.category == Category::Kinesis && t.pane == Pane::Input
            &&& t.input_kind == InputKind::KinesisStream
            &&& t.input_prompt == "Kinesis stream name"@
            &&& s.kin_stream is None ==> t.input.len() == 0
            &&& s.kin_stream matches Some(name) ==> t.input == name
            &&& !t.watching && ends_the_command(s, t)
            &&& (AppState {
                category: s.category,
                pane: s.pane,
                input_kind: s.input_kind,
                input_prompt: s.input_prompt,
                input: s.input,
                watching: s.watching,
                loading: s.loading,
                req: s.req,
                abort: s.abort,
                outbox: s.outbox,
                ..t
            }) == s
        }),
{
    reveal(AppState::asking_stream);
}

/// A line goes behind those that are there. Of a hundred thousand lines the oldest goes for it, and
/// then a view that is not followed moves up with its lines.
pub proof fn law_lines_are_kept(s: AppState, line: Seq<char>)
    requires
        s.wf(),
    ensures
        ({
            let t = s.with_line(line);
            &&& t.output.len() > 0 && t.output.last() == line
            &&& s.output.len() < 100_000 ==> t == (AppState { output: s.output.push(line), ..s })
            &&& s.output.len() == 100_000 ==> {
                &&& t.output.len() == 100_000
                &&& forall|i: int| 0 <= i < 99_999 ==> #[trigger] t.output[i] == s.output[i + 1]
                &&& s.follow || s.scroll == 0 ==> t.scroll == s.scroll
                &&& !s.follow && s.scroll > 0 ==> t.scroll == s.scroll - 1
                &&& (AppState { output: s.output, scroll: s.scroll, ..t }) == s
            }
        }),
{
}

/// What a message of the command given last does: entries take the place of the list and the first
/// is selected, a line is added, an error is shown as one, and all but a line and a start end the
/// waiting.
pub proof fn law_answers_are_taken(
    s: AppState,
    req: u64,
    items: Vec<String>,
    line: String,
    text: String,
    account_id: String,
)
    requires
        req == s.req,
    ensures
        s.received(Msg::Identity { account_id }) == (AppState { account_id: account_id@, ..s }),
        s.received(Msg::Started { req }) == (AppState { abort: Some(s.req), ..s }),
        s.received(Msg::Line { req, line }) == s.with_line(line@),
        s.received(Msg::Done { req }) == (AppState { loading: false, ..s }),
        s.received(Msg::Error { req, text }) == (AppState {
            status: "Error: "@ + text@,
            loading: false,
            ..s
        }),
        s.received(Msg::Error { req: 0, text }) == (AppState {
            status: "Error: "@ + text@,
            loading: false,
            ..s
        }),
        ({
            let t = s.received(Msg::Items { req, items });
            &&& t.items.len() == items@.len()
            &&& forall|i: int| 0 <= i < items@.len() ==> #[trigger] t.items[i] == items@[i]@
            &&& items@.len() == 0 ==> t.selected is None
            &&& items@.len() > 0 ==> t.selected == Some(0int)
            &&& !t.loading
            &&& (AppState { items: s.items, selected: s.selected, loading: s.loading, ..t }) == s
        }),
{
}

/// Scrolling moves the view and stops following. Up never passes the first line, and down never the
/// start of the last screenful; between them each step counts in full.
pub proof fn law_scrolling(s: AppState, n: int)
    requires
        s.wf(),
        n >= 0,
    ensures
        ({
            let up = s.scrolled_up(n);
            let down = s.scrolled_down(n);
            let end = s.output.len() - s.viewport_height;
            &&& !up.follow && !down.follow
            &&& s.scroll >= n ==> up.scroll == s.scroll - n
            &&& s.scroll < n ==> up.scroll == 0
            &&& s.scroll + n <= end ==> down.scroll == s.scroll + n
            &&& s.scroll + n > end && end >= 0 ==> down.scroll == end
            &&& end < 0 ==> down.scroll == 0
            &&& (AppState { follow: s.follow, scroll: s.scroll, ..up }) == s
            &&& (AppState { follow: s.follow, scroll: s.scroll, ..down }) == s
            &&& s.scroll + n <= end ==> s.scrolled_down(n).scrolled_up(n).scroll == s.scroll
        }),
{
}

/// The selection moves by one entry and stops at both ends; nothing else changes. Without a
/// selection the first entry is taken, and an empty list has none.
pub proof fn law_selecting(s: AppState)
    requires
        s.wf(),
    ensures
        ({
            let up = s.selected_prev();
            let down = s.selected_next();
            &&& s.items.len() == 0 ==> up == s && down == s
            &&& s.items.len() > 0 && s.selected is None ==> up.selected == Some(0int)
                && down.selected == Some(0int)
            &&& s.selected matches Some(i) ==> {
                &&& i > 0 ==> up.selected == Some(i - 1)
                &&& i == 0 ==> up.selected == Some(0int)
                &&& i < s.items.len() - 1 ==> down.selected == Some(i + 1)
                &&& i == s.items.len() - 1 ==> down.selected == Some(i)
            }
            &&& (AppState { selected: s.selected, ..up }) == s
            &&& (AppState { selected: s.selected, ..down }) == s
        }),
{
}

/// Opening an entry: a group shows its streams, a stream its events and a shard its records; the
/// entry for all of them shows all. Without a selection nothing happens.
pub proof fn law_entries_are_opened(s: AppState)
    requires
        s.wf(),
    ensures
        s.selected is None ==> s.entered() == s,
        s.selected matches Some(i) ==> {
            let item = s.items[i];
            match s.category {
                Category::CloudWatch => match s.cw_group {
                    None => s.entered() == s.streams_loading(item),
                    Some(group) => s.entered() == if item == "[ALL streams]"@ {
                        (AppState { cw_stream_sel: None, ..s }).logs_loading(group, None)
                    } else {
                        (AppState { cw_stream_sel: Some(item), ..s }).logs_loading(
                            group,
                            Some(item),
                        )
                    },
                },
                Category::Kinesis => match s.kin_stream {
                    None => s.entered() == s,
                    Some(stream) => s.entered() == if item == "[ALL shards]"@ {
                        (AppState { kin_shard_sel: None, ..s }).search_loading(stream, None)
                    } else {
                        (AppState { kin_shard_sel: Some(item), ..s }).search_loading(
                            stream,
                            Some(item),
                        )
                    },
                },
            }
        },
{
}

/// Leaving a list goes up: from streams to groups, from shards to the naming of a stream. The groups
/// are at the top.
pub proof fn law_lists_are_left(s: AppState)
    ensures
        s.category == Category::CloudWatch && s.cw_group is Some ==> s.left() == s.groups_loading(),
        s.category == Category::CloudWatch && s.cw_group is None ==> s.left() == s,
        s.category == Category::Kinesis ==> s.left() == s.asking_stream(),
{
}

/// Reloading asks for the same again: the list that is shown, or the output that is shown.
pub proof fn law_reloading(s: AppState, name: Seq<char>)
    ensures
        s.category == Category::CloudWatch && s.cw_group is None ==> s.reloaded()
            == s.groups_loading(),
        s.category == Category::CloudWatch && s.cw_group == Some(name) ==> s.reloaded()
            == s.streams_loading(name) && s.output_reloaded() == s.logs_loading(
            name,
            s.cw_stream_sel,
        ),
        s.category == Category::Kinesis && s.kin_stream == Some(name) ==> s.reloaded()
            == s.shards_loading(name) && s.output_reloaded() == s.search_loading(
            name,
            s.kin_shard_sel,
        ),
        s.category == Category::Kinesis && s.kin_stream is None ==> s.reloaded() == s
            && s.output_reloaded() == s,
        s.category == Category::CloudWatch && s.cw_group is None ==> s.output_reloaded() == s,
{
}

/// The other category is entered at its top: the groups, or the shards of the stream that was named
/// before, or else the naming of one.
pub proof fn law_switching(s: AppState, name: Seq<char>)
    ensures
        s.category == Category::Kinesis ==> s.switched() == s.groups_loading(),
        s.category == Category::CloudWatch && s.kin_stream == Some(name) ==> s.switched()
            == s.shards_loading(name),
        s.category == Category::CloudWatch && s.kin_stream is None ==> s.switched()
            == s.asking_stream(),
{
}

/// Leaving output ends what runs and what is watched, and shows the list as it was.
pub proof fn law_output_is_left(s: AppState)
    ensures
        ({
            let t = s.output_left();
            &&& t.pane == Pane::List && !t.watching && ends_the_command(s, t)
            &&& (AppState {
                pane: s.pane,
                watching: s.watching,
                loading: s.loading,
                req: s.req,
                abort: s.abort,
                outbox: s.outbox,
                ..t
            }) == s
        }),
{
}

/// Watching is switched by asking for the same again, watched or not.
pub proof fn law_watching_is_switched(s: AppState)
    ensures
        s.watch_toggled() == (AppState { watching: !s.watching, ..s }).output_reloaded(),
{
}

/// A filter is asked for on an input line that offers the one that is set.
pub proof fn law_filters_are_asked_for(s: AppState)
    ensures
        ({
            let t = s.asking_filter();
            &&& t.pane == Pane::Input
            &&& s.category == Category::CloudWatch ==> {
                &&& t.input_kind == InputKind::CwFilter
                &&& t.input_prompt == "CloudWatch filter pattern (empty = none)"@
                &&& s.cw_filter matches Some(f) ==> t.input == f
                &&& s.cw_filter is None ==> t.input.len() == 0
            }
            &&& s.category == Category::Kinesis ==> {
                &&& t.input_kind == InputKind::KinFilter
                &&& t.input_prompt == "Kinesis filter substring (empty = none)"@
                &&& s.kin_filter matches Some(f) ==> t.input == f
                &&& s.kin_filter is None ==> t.input.len() == 0
            }
            &&& (AppState {
                pane: s.pane,
                input: s.input,
                input_prompt: s.input_prompt,
                input_kind: s.input_kind,
                ..t
            }) == s
        }),
{
}

/// What is typed is taken without the whitespace at its ends: as the name of a stream, whose shards
/// are then asked for, or as a filter, with which the same is asked for again. An empty filter is
/// none, and an empty name is not taken.
pub proof fn law_input_is_taken(
    s: AppState,
    front: Seq<char>,
    typed: Seq<char>,
    back: Seq<char>,
    source: Seq<char>,
)
    requires
        s.input == front + typed + back,
        forall|i: int| 0 <= i < front.len() ==> text::is_space(#[trigger] front[i]),
        forall|i: int| 0 <= i < back.len() ==> text::is_space(#[trigger] back[i]),
        typed.len() > 0 ==> !text::is_space(typed[0]) && !text::is_space(typed.last()),
    ensures
        s.input_kind == InputKind::KinesisStream && typed.len() > 0 ==> s.submitted()
            == s.shards_loading(typed),
        s.input_kind == InputKind::KinesisStream && typed.len() == 0 ==> s.submitted() == (AppState {
            status: "Enter a stream name"@,
            ..s
        }),
        s.input_kind == InputKind::CwFilter && s.cw_group == Some(source) && typed.len() > 0
            ==> s.submitted() == (AppState { cw_filter: Some(typed), ..s }).logs_loading(
            source,
            s.cw_stream_sel,
        ),
        s.input_kind == InputKind::CwFilter && s.cw_group == Some(source) && typed.len() == 0
            ==> s.submitted() == (AppState { cw_filter: None, ..s }).logs_loading(
            source,
            s.cw_stream_sel,
        ),
        s.input_kind == InputKind::KinFilter && s.kin_stream == Some(source) && typed.len() > 0
            ==> s.submitted() == (AppState { kin_filter: Some(typed), ..s }).search_loading(
            source,
            s.kin_shard_sel,
        ),
        s.input_kind == InputKind::KinFilter && s.kin_stream == Some(source) && typed.len() == 0
            ==> s.submitted() == (AppState { kin_filter: None, ..s }).search_loading(
            source,
            s.kin_shard_sel,
        ),
{
    text::law_stripping(front, typed, back);
    assert(s.value() == typed);
}

/// Giving up the input goes back: to the output from a filter, to the shards of the stream that was
/// named before or else to the groups from a name.
pub proof fn law_input_is_given_up(s: AppState, name: Seq<char>)
    ensures
        s.input_kind == InputKind::KinesisStream && s.kin_stream == Some(name)
            ==> s.input_cancelled() == s.shards_loading(name),
        s.input_kind == InputKind::KinesisStream && s.kin_stream is None ==> s.input_cancelled()
            == s.groups_loading(),
        s.input_kind != InputKind::KinesisStream ==> s.input_cancelled() == (AppState {
            pane: Pane::Output,
            ..s
        }),
{
}

/// The keys over the input line: characters are typed, the last one is taken back, and the line is
/// taken or given up. No other key means anything there, nor does any but the end key with control.
pub proof fn law_input_keys(s: AppState, c: char)
    requires
        s.pane == Pane::Input,
    ensures
        s.pressed(Key::Enter, false) == s.submitted(),
        s.pressed(Key::Esc, false) == s.input_cancelled(),
        s.pressed(Key::Char(c), false) == (AppState { input: s.input.push(c), ..s }),
        s.input.len() > 0 ==> s.pressed(Key::Backspace, false) == (AppState {
            input: s.input.take(s.input.len() - 1),
            ..s
        }),
        s.input.len() == 0 ==> s.pressed(Key::Backspace, false) == s,
        s.pressed(Key::Char(c), false).pressed(Key::Backspace, false) == s,
        s.pressed(Key::Up, false) == s && s.pressed(Key::Down, false) == s,
        s.pressed(Key::Left, false) == s && s.pressed(Key::Right, false) == s,
        s.pressed(Key::Tab, false) == s && s.pressed(Key::Other, false) == s,
        s.pressed(Key::PageUp, false) == s && s.pressed(Key::PageDown, false) == s,
{
    if s.input.len() > 0 {
        assert(s.input.drop_last() == s.input.take(s.input.len() - 1));
    }
    assert(s.input.push(c).drop_last() == s.input);
}

/// The keys over a list.
pub proof fn law_list_keys(s: AppState)
    requires
        s.pane == Pane::List,
    ensures
        s.pressed(Key::Tab, false) == s.switched(),
        s.pressed(Key::Up, false) == s.selected_prev(),
        s.pressed(Key::Char('k'), false) == s.selected_prev(),
        s.pressed(Key::Down, false) == s.selected_next(),
        s.pressed(Key::Char('j'), false) == s.selected_next(),
        s.pressed(Key::Enter, false) == s.entered(),
        s.pressed(Key::Right, false) == s.entered(),
        s.pressed(Key::Char('l'), false) == s.entered(),
        s.pressed(Key::Esc, false) == s.left(),
        s.pressed(Key::Backspace, false) == s.left(),
        s.pressed(Key::Left, false) == s.left(),
        s.pressed(Key::Char('h'), false) == s.left(),
        s.pressed(Key::Char('r'), false) == s.reloaded(),
        s.pressed(Key::Char('q'), false) == (AppState { should_quit: true, ..s }),
        s.pressed(Key::PageUp, false) == s && s.pressed(Key::PageDown, false) == s,
        s.pressed(Key::Other, false) == s,
        forall|c: char|
            c != 'k' && c != 'j' && c != 'l' && c != 'h' && c != 'r' && c != 'q'
                ==> #[trigger] s.pressed(Key::Char(c), false) == s,
{
}

/// The keys over output.
pub proof fn law_output_keys(s: AppState)
    requires
        s.pane == Pane::Output,
    ensures
        s.pressed(Key::Tab, false) == s.switched(),
        s.pressed(Key::Up, false) == s.scrolled_up(1),
        s.pressed(Key::Char('k'), false) == s.scrolled_up(1),
        s.pressed(Key::Down, false) == s.scrolled_down(1),
        s.pressed(Key::Char('j'), false) == s.scrolled_down(1),
        s.pressed(Key::PageUp, false) == s.scrolled_up(10),
        s.pressed(Key::PageDown, false) == s.scrolled_down(10),
        s.pressed(Key::Char('g'), false) == (AppState { follow: false, scroll: 0, ..s }),
        s.pressed(Key::Char('G'), false) == (AppState { follow: true, ..s }),
        s.pressed(Key::Char('w'), false) == s.watch_toggled(),
        s.pressed(Key::Char('/'), false) == s.asking_filter(),
        s.pressed(Key::Esc, false) == s.output_left(),
        s.pressed(Key::Backspace, false) == s.output_left(),
        s.pressed(Key::Left, false) == s.output_left(),
        s.pressed(Key::Char('q'), false) == (AppState { should_quit: true, ..s }),
        s.pressed(Key::Enter, false) == s && s.pressed(Key::Right, false) == s,
        s.pressed(Key::Other, false) == s,
        forall|c: char|
            c != 'k' && c != 'j' && c != 'g' && c != 'G' && c != 'w' && c != '/' && c != 'q'
                ==> #[trigger] s.pressed(Key::Char(c), false) == s,
{
}

/// `Ctrl-C` ends the front-end wherever the user is; control makes no difference to another key.
pub proof fn law_control(s: AppState, key: Key)
    ensures
        s.pressed(Key::Char('c'), true) == (AppState { should_quit: true, ..s }),
        key != Key::Char('c') ==> s.pressed(key, true) == s.pressed(key, false),
{
}

/// The title is that of the pane, and a list that has entries is counted.
pub proof fn law_titles(s: AppState)
    ensures
        s.pane == Pane::List && s.items.len() > 0 ==> s.title() == " "@ + s.list_title + " ("@
            + text::decimal_text(s.items.len()) + ") "@,
        s.pane == Pane::List && s.items.len() == 0 ==> s.title() == " "@ + s.list_title + " "@,
        s.pane == Pane::Output ==> s.title() == " "@ + s.output_title + " "@,
        s.pane == Pane::Input ==> s.title() == " "@ + s.input_prompt + " "@,
        s.pane == Pane::List ==> s.main_title() == s.list_title,
        s.pane == Pane::Output ==> s.main_title() == s.output_title,
        s.pane == Pane::Input ==> s.main_title() == s.input_prompt,
{
}

/// Which keys are named depends on where the user is.
pub proof fn law_hints(s: AppState)
    ensures
        s.pane == Pane::Input ==> s.key_hints() == " Enter submit · Esc cancel "@,
        s.pane == Pane::Output ==> s.key_hints()
            == " ↑↓ scroll · G follow · w watch · / filter · Esc back · Tab switch · q quit "@,
        s.pane == Pane::List && s.category == Category::Kinesis ==> s.key_hints()
            == " ↑↓ move · Enter search · Esc stream · r reload · Tab switch · q quit "@,
        s.pane == Pane::List && s.category == Category::CloudWatch && s.cw_group is Some
            ==> s.key_hints()
            == " ↑↓ move · Enter logs · Esc groups · r reload · Tab switch · q quit "@,
        s.pane == Pane::List && s.category == Category::CloudWatch && s.cw_group is None
            ==> s.key_hints() == " ↑↓ move · Enter streams · r reload · Tab switch · q quit "@,
{
}

/// What stands in place of nothing depends on what was asked for, whatever else is shown.
pub proof fn law_empty_hints(s: AppState)
    ensures
        s.category == Category::Kinesis ==> s.list_empty_hint()
            == "  No shards found for this stream."@,
        s.category == Category::CloudWatch && s.cw_group is Some ==> s.list_empty_hint()
            == "  No streams in this log group."@,
        s.category == Category::CloudWatch && s.cw_group is None ==> s.list_empty_hint()
            == "  No log groups found."@,
        s.output_empty_hint() == "  "@ + (if s.category == Category::Kinesis {
            "No matching records in the selected window."@
        } else if s.cw_stream_sel is Some {
            "No log events found for this stream."@
        } else {
            "No log events in the last 30 minutes for this group."@
        }) + "\n\n  Press  w  to watch (live tail)   ·   /  to filter   ·   Esc  to go back."@,
{
}

/// The main area shows the entries with the selection, the lines, or what is typed with the cursor
/// behind it; while something empty loads it says so, and then why it is empty.
pub proof fn law_main_area(s: AppState)
    ensures
        s.pane == Pane::List && s.items.len() > 0 ==> s.body() == Shown::List(s.items, s.selected),
        s.pane == Pane::List && s.items.len() == 0 && s.loading ==> s.body() == Shown::Note(
            "  Loading…"@,
            false,
        ),
        s.pane == Pane::List && s.items.len() == 0 && !s.loading ==> s.body() == Shown::Note(
            if s.category == Category::Kinesis {
                "  No shards found for this stream."@
            } else if s.cw_group is Some {
                "  No streams in this log group."@
            } else {
                "  No log groups found."@
            },
            false,
        ),
        s.pane == Pane::Output && s.output.len() > 0 ==> s.body() == Shown::Lines(s.visible()),
        s.pane == Pane::Output && s.output.len() == 0 && s.loading ==> s.body() == Shown::Note(
            "  Loading…"@,
            true,
        ),
        s.pane == Pane::Output && s.output.len() == 0 && !s.loading ==> s.body() == Shown::Note(
            "  "@ + (if s.category == Category::Kinesis {
                "No matching records in the selected window."@
            } else if s.cw_stream_sel is Some {
                "No log events found for this stream."@
            } else {
                "No log events in the last 30 minutes for this group."@
            })
                + "\n\n  Press  w  to watch (live tail)   ·   /  to filter   ·   Esc  to go back."@,
            true,
        ),
        s.pane == Pane::Input ==> s.body() == Shown::Input(
            "> "@ + s.input,
            s.input.len() as int % 0x10000,
        ),
        s.pane == Pane::Input && s.input.len() < 0x10000 ==> s.body() == Shown::Input(
            "> "@ + s.input,
            s.input.len() as int,
        ),
{
}

/// The lines on the screen, of which there is room for one at least, stand one behind the other in
/// the output. A view that is followed ends
/// with the last of them; any other begins at the scroll position, or at the last screenful where
/// that is before it.
pub proof fn law_visible_lines(s: AppState, i: int)
    requires
        s.wf(),
    ensures
        ({
            let n = s.output.len() as int;
            let h = if s.viewport_height >= 1 {
                s.viewport_height
            } else {
                1int
            };
            let v = s.visible();
            &&& n <= h ==> v == s.output
            &&& n > h ==> v.len() == h
            &&& n > h && s.follow && 0 <= i < h ==> v[i] == s.output[n - h + i]
            &&& n > h && !s.follow && s.scroll <= n - h && 0 <= i < h ==> v[i]
                == s.output[s.scroll + i]
            &&& n > h && !s.follow && s.scroll > n - h && 0 <= i < h ==> v[i] == s.output[n - h + i]
        }),
{
    if s.output.len() <= s.viewport_height || s.output.len() <= 1 {
        assert(s.visible() == s.output);
    }
}

/// The rows that a frame leaves are never negative: none of them is lost where there are any.
pub proof fn law_rows_are_not_negative(n: int)
    ensures
        n >= 0 ==> at_least_zero(n) == n,
        n < 0 ==> at_least_zero(n) == 0,
{
}

/// The status bar names the account; behind it, in this order and only where there is something to
/// say: that something loads, that something is watched, and the status, which is red where it is an
/// error.
pub proof fn law_status_bar(s: AppState)
    ensures
        ({
            let bar = s.status_bar();
            let l = if s.loading {
                2int
            } else {
                1
            };
            let w = if s.watching {
                l + 1
            } else {
                l
            };
            &&& bar[0] == (" Account "@ + s.account_id + " "@, Tone::Plain)
            &&& s.loading ==> bar[1] == ("· loading "@, Tone::Plain)
            &&& s.watching ==> bar[l] == ("· watching "@, Tone::Yellow)
            &&& s.status.len() == 0 ==> bar.len() == w
            &&& s.status.len() > 0 ==> bar.len() == w + 1 && bar[w].0 == "· "@ + s.status + " "@
            &&& s.status.len() > 0 && text::occurs_at(s.status, "Error"@, 0) ==> bar[w].1
                == Tone::Red
            &&& s.status.len() > 0 && !text::occurs_at(s.status, "Error"@, 0) ==> bar[w].1
                == Tone::White
        }),
{
}

/// What is on the screen can be told: notes, lists, lines and input as they are, and the status
/// part by part.
pub proof fn law_screens_are_told(
    text: String,
    wrap: bool,
    items: Vec<String>,
    selected: Option<usize>,
    cursor: u16,
    status: Seq<StatusSpan>,
    i: int,
)
    ensures
        (Body::Note { text, wrap })@ == Shown::Note(text@, wrap),
        (Body::Lines { lines: items })@ == Shown::Lines(text::texts(items@)),
        (Body::Input { line: text, cursor })@ == Shown::Input(text@, cursor as int),
        selected is None ==> (Body::List { items, selected })@ == Shown::List(
            text::texts(items@),
            None,
        ),
        selected matches Some(k) ==> (Body::List { items, selected })@ == Shown::List(
            text::texts(items@),
            Some(k as int),
        ),
        spans(status).len() == status.len(),
        0 <= i < status.len() ==> spans(status)[i] == (status[i].text@, status[i].tone),
{
}

/// A selection and an id are told as the numbers they are.
pub proof fn law_numbers_are_told(n: usize, id: u64)
    ensures
        opt_number(Some(n)) == Some(n as int) && opt_number(None) is None,
        opt_id(Some(id)) == Some(id as int) && opt_id(None) is None,
{
}

} // verus!
