//! The dispatcher: what to do with each decoded link event.
//!
//! Waiting for signals, reading the link database and listing directories are
//! the caller's part; the dispatcher turns what they gave into the scripts to
//! queue, all built from one snapshot of the link table.
use vstd::prelude::*;
use vstd::string::*;
use std::sync::Arc;
use crate::environment::{Arguments, Environments, LinkSnapshot, args_spec, env_spec, pair_views};
use crate::event::LinkEvent;
use crate::launcher::ScriptSpec;
use crate::resolver::{DirEntry, ResolveError, join, join_path, resolve, resolve_spec, views};
use crate::state::{LinkState, has_carrier, parse_state, parse_state_spec, state_name};

verus! {

/// One link of a registry snapshot, with its kernel index.
#[derive(Clone, Debug)]
pub struct LinkEntry {
    pub index: u32,
    pub link: LinkSnapshot,
}

/// A responder to link events.
#[derive(Debug)]
pub struct Dispatcher {
    script_dir: String,
    run_startup_triggers: bool,
    timeout: u64,
    json: bool,
    verbose: u8,
}

/// What an event comes to.
#[derive(Debug)]
pub enum Response {
    /// The event's index is not in the snapshot.
    UnknownLink,
    /// The state directory, which does not exist.
    NoPathFound(String),
    /// The state directory, which holds no script.
    NoScriptFound(String),
    /// The scripts to queue, in order.
    Launch(Vec<ScriptSpec>),
}

/// The position of the first link with index `index` at or after `i`.
pub open spec fn link_position_from(links: Seq<LinkEntry>, index: u32, i: int) -> Option<int>
    decreases links.len() - i,
{
    if i < 0 || i >= links.len() {
        None
    } else if links[i].index == index {
        Some(i)
    } else {
        link_position_from(links, index, i + 1)
    }
}

pub open spec fn link_position(links: Seq<LinkEntry>, index: u32) -> Option<int> {
    link_position_from(links, index, 0)
}

/// The directory of the scripts of state `s` under `root`.
pub open spec fn state_dir_spec(root: Seq<char>, s: LinkState) -> Seq<char> {
    join_path(root, state_name(s) + ".d"@)
}

/// Whether a link in operational state `oper` has a carrier.
pub open spec fn oper_has_carrier(oper: Seq<char>) -> bool {
    match parse_state_spec(oper) {
        Some(s) => has_carrier(s),
        None => false,
    }
}

/// The event synthesized at startup for a link.
pub open spec fn startup_event(e: LinkEntry) -> LinkEvent {
    LinkEvent {
        index: e.index,
        state: if oper_has_carrier(e.link.status.oper_state@) {
            LinkState::Configured
        } else {
            LinkState::Off
        },
    }
}

pub open spec fn listing_view(l: Option<Vec<DirEntry>>) -> Option<Seq<DirEntry>> {
    match l {
        None => None,
        Some(es) => Some(es@),
    }
}

/// The specs of one event: each path with the event's arguments and
/// environment and the timeout.
pub open spec fn launches(
    specs: Seq<ScriptSpec>,
    paths: Seq<Seq<char>>,
    ev: LinkEvent,
    link: LinkSnapshot,
    json: bool,
    timeout: u64,
) -> bool {
    &&& specs.len() == paths.len()
    &&& forall|k: int|
        0 <= k < specs.len() ==> {
            &&& (#[trigger] specs[k]).path@ == paths[k]
            &&& views(specs[k].args.args@) == args_spec(ev, link)
            &&& pair_views(specs[k].env.vars@) == env_spec(ev, link, json)
            &&& specs[k].timeout == timeout
            &&& specs[k].wf()
        }
}

/// The first link with index `index`.
pub fn find_link(links: &Vec<LinkEntry>, index: u32) -> (r: Option<usize>)
    ensures
        r matches Some(i) ==> link_position(links@, index) == Some(i as int) && i < links@.len()
            && links@[i as int].index == index,
        r is None ==> link_position(links@, index) is None,
{
    let mut k: usize = 0;
    while k < links.len() && links[k].index != index
        invariant
            k <= links@.len(),
            link_position(links@, index) == link_position_from(links@, index, k as int),
        decreases links@.len() - k,
    {
        k = k + 1;
    }
    if k < links.len() {
        Some(k)
    } else {
        None
    }
}

impl Dispatcher {
    pub open spec fn wf(&self) -> bool {
        self.spec_timeout() > 0
    }

    pub closed spec fn spec_script_dir(&self) -> Seq<char> {
        self.script_dir@
    }

    pub closed spec fn spec_timeout(&self) -> u64 {
        self.timeout
    }

    pub closed spec fn spec_json(&self) -> bool {
        self.json
    }

    pub closed spec fn spec_run_startup_triggers(&self) -> bool {
        self.run_startup_triggers
    }

    pub closed spec fn spec_verbose(&self) -> u8 {
        self.verbose
    }

    pub fn new(script_dir: String, run_startup_triggers: bool, timeout: u64, json: bool, verbose: u8) -> (r:
        Dispatcher)
        requires
            timeout > 0,
        ensures
            r.spec_script_dir() == script_dir@,
            r.spec_run_startup_triggers() == run_startup_triggers,
            r.spec_timeout() == timeout,
            r.spec_json() == json,
            r.spec_verbose() == verbose,
    {
        Dispatcher { script_dir, run_startup_triggers, timeout, json, verbose }
    }

    pub fn script_dir(&self) -> (r: &String)
        ensures
            r@ == self.spec_script_dir(),
    {
        &self.script_dir
    }

    pub fn run_startup_triggers(&self) -> (r: bool)
        ensures
            r == self.spec_run_startup_triggers(),
    {
        self.run_startup_triggers
    }

    pub fn timeout(&self) -> (r: u64)
        ensures
            r == self.spec_timeout(),
    {
        self.timeout
    }

    pub fn json(&self) -> (r: bool)
        ensures
            r == self.spec_json(),
    {
        self.json
    }

    pub fn verbose(&self) -> (r: u8)
        ensures
            r == self.spec_verbose(),
    {
        self.verbose
    }

    /// The directory holding the scripts of state `s`.
    pub fn state_dir(&self, s: LinkState) -> (r: String)
        ensures
            r@ == state_dir_spec(self.spec_script_dir(), s),
    {
        let name = String::from_str(s.name()).concat(".d");
        join(self.script_dir.as_str(), name.as_str())
    }

    /// The events to run once at startup, one per link: `configured` for a
    /// link with a carrier, `off` for the others; none unless startup
    /// triggers are on.
    pub fn startup_events(&self, links: &Vec<LinkEntry>) -> (r: Vec<LinkEvent>)
        ensures
            r@ == (if self.spec_run_startup_triggers() {
                links@.map_values(|e: LinkEntry| startup_event(e))
            } else {
                Seq::empty()
            }),
    {
        let mut out: Vec<LinkEvent> = Vec::new();
        if !self.run_startup_triggers {
            assert(out@ =~= Seq::<LinkEvent>::empty());
            return out;
        }
        let mut k: usize = 0;
        while k < links.len()
            invariant
                k <= links@.len(),
                out@ =~= links@.subrange(0, k as int).map_values(|e: LinkEntry| startup_event(e)),
            decreases links@.len() - k,
        {
            let e = &links[k];
            let carrier = match parse_state(e.link.status.oper_state.as_str()) {
                Some(s) => s.carrier(),
                None => false,
            };
            let state = if carrier {
                LinkState::Configured
            } else {
                LinkState::Off
            };
            out.push(LinkEvent { index: e.index, state });
            proof {
                assert(links@.subrange(0, k + 1).map_values(|e: LinkEntry| startup_event(e))
                    =~= links@.subrange(0, k as int).map_values(|e: LinkEntry| startup_event(e)).push(
                    startup_event(links@[k as int]),
                ));
            }
            k = k + 1;
        }
        assert(links@.subrange(0, links@.len() as int) =~= links@);
        out
    }

    /// What to do for event `ev`, given the link table of this turn and the
    /// listing of the event's state directory (`None` where it does not
    /// exist). The arguments and environment of every script come from the
    /// same entry of `links`, and are shared by all of them.
    pub fn respond(&self, ev: &LinkEvent, links: &Vec<LinkEntry>, listing: &Option<Vec<DirEntry>>) -> (r:
        Response)
        requires
            self.wf(),
        ensures
            match link_position(links@, ev.index) {
                None => r is UnknownLink,
                Some(i) => {
                    let dir = state_dir_spec(self.spec_script_dir(), ev.state);
                    match resolve_spec(dir, listing_view(*listing)) {
                        Err(ResolveError::NoPathFound) => r matches Response::NoPathFound(d) && d@
                            == dir,
                        Err(_) => r matches Response::NoScriptFound(d) && d@ == dir,
                        Ok(paths) => r matches Response::Launch(specs) && launches(
                            specs@,
                            paths,
                            *ev,
                            links@[i].link,
                            self.spec_json(),
                            self.spec_timeout(),
                        ),
                    }
                },
            },
    {
        let i = match find_link(links, ev.index) {
            Some(i) => i,
            None => {
                return Response::UnknownLink;
            },
        };
        let link = &links[i].link;
        let dir = self.state_dir(ev.state);
        let paths = match resolve(dir.as_str(), listing) {
            Ok(p) => p,
            Err(ResolveError::NoPathFound) => {
                return Response::NoPathFound(dir);
            },
            Err(_) => {
                return Response::NoScriptFound(dir);
            },
        };
        let args = Arc::new(Arguments::build(ev, link));
        let env = Arc::new(Environments::build(ev, link, self.json));
        let mut specs: Vec<ScriptSpec> = Vec::new();
        let mut k: usize = 0;
        while k < paths.len()
            invariant
                k <= paths@.len(),
                self.wf(),
                views(args.args@) == args_spec(*ev, *link),
                pair_views(env.vars@) == env_spec(*ev, *link, self.spec_json()),
                launches(
                    specs@,
                    views(paths@).subrange(0, k as int),
                    *ev,
                    *link,
                    self.spec_json(),
                    self.spec_timeout(),
                ),
            decreases paths@.len() - k,
        {
            let s = ScriptSpec::new(paths[k].clone(), args.clone(), env.clone(), self.timeout);
            specs.push(s);
            k = k + 1;
        }
        assert(views(paths@).subrange(0, paths@.len() as int) =~= views(paths@));
        Response::Launch(specs)
    }
}

} // verus!
