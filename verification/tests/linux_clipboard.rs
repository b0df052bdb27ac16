//! The two Linux backends and the choice between them, driven against a
//! compositor and a server that live in memory.

use cli_clipboard::common::{finish, Step};
use cli_clipboard::linux_clipboard::{LinuxClipboardContext, LinuxContext, Routed};
use cli_clipboard::text::text_of;
use cli_clipboard::wait::{WaitEvent, WaitRequest};
use cli_clipboard::wayland_clipboard::{
    CopyDestination, CopyRequest, CopySeat, MimeType, PasteFailure, PasteRequest, PasteSource,
    ProbeFailure, ServeRequests, WaylandClipboardContext,
};
use cli_clipboard::x11_clipboard::{
    Atom, AtomSource, Atoms, Clipboard, InternRequest, ListRequest, LoadRequest, Primary,
    ReadRequest, Selection, StoreRequest, Storing, Timeout, X11ClipboardContext, X11Failure,
};
use cli_clipboard::{ClipboardError, ClipboardProvider, TargetMimeType};
use std::time::Duration;

// ---------------------------------------------------------------------------
// A Wayland compositor in memory.

/// The text types that a compositor lists for plain text.
const TEXT_TYPES: [&str; 5] = [
    "text/plain;charset=utf-8",
    "text/plain",
    "STRING",
    "UTF8_STRING",
    "TEXT",
];

type Offer = Vec<(String, Vec<u8>)>;

struct Compositor {
    reachable: bool,
    seats: bool,
    has_primary: bool,
    primary_broken: bool,
    regular: Option<Offer>,
    primary: Option<Offer>,
    pastes: Vec<PasteSource>,
    clock: u128,
    /// What another client publishes once the clock has reached a time.
    later: Vec<(u128, Vec<(String, Vec<u8>)>)>,
}

impl Compositor {
    fn new(has_primary: bool) -> Compositor {
        Compositor {
            reachable: true,
            seats: true,
            has_primary,
            primary_broken: false,
            regular: None,
            primary: None,
            pastes: Vec::new(),
            clock: 0,
            later: Vec::new(),
        }
    }

    fn probe(&self) -> Result<bool, ProbeFailure> {
        if !self.reachable {
            return Err(ProbeFailure::Other("no compositor".to_string()));
        }
        if !self.seats {
            return Err(ProbeFailure::NoSeats);
        }
        Ok(self.has_primary)
    }

    fn offer(&self, source: PasteSource) -> Result<&Offer, PasteFailure> {
        if !self.seats {
            return Err(PasteFailure::NoSeats);
        }
        let held = match source {
            PasteSource::Regular => &self.regular,
            PasteSource::Primary => {
                if self.primary_broken || !self.has_primary {
                    return Err(PasteFailure::Other("no primary selection".to_string()));
                }
                &self.primary
            }
        };
        match held {
            Some(offer) if !offer.is_empty() => Ok(offer),
            _ => Err(PasteFailure::ClipboardEmpty),
        }
    }

    fn paste(&mut self, request: &PasteRequest) -> Result<Vec<u8>, PasteFailure> {
        self.pastes.push(request.source);
        let offer = self.offer(request.source)?;
        let found = match &request.mime {
            MimeType::Text => offer.iter().find(|(name, _)| TEXT_TYPES.contains(&name.as_str())),
            MimeType::Specific(wanted) => offer.iter().find(|(name, _)| name == wanted),
        };
        match found {
            Some((_, bytes)) => Ok(bytes.clone()),
            None => Err(PasteFailure::NoMimeType),
        }
    }

    fn mime_types(&self, source: PasteSource) -> Result<Vec<String>, PasteFailure> {
        let offer = self.offer(source)?;
        Ok(offer.iter().map(|(name, _)| name.clone()).collect())
    }

    fn copy(&mut self, request: CopyRequest) -> Result<(), String> {
        if !self.seats {
            return Err("There are no seats".to_string());
        }
        if request.foreground || request.trim_newline {
            return Err("the offer is to be kept in the background, as it is".to_string());
        }
        if !matches!(request.seat, CopySeat::All) {
            return Err("the offer is to serve every seat".to_string());
        }
        if request.serve_requests != ServeRequests::Unlimited {
            return Err("the offer is to serve every request".to_string());
        }
        let mut offer: Offer = Vec::new();
        for (mime, bytes) in request.sources {
            let names: Vec<String> = match mime {
                MimeType::Text => TEXT_TYPES.iter().map(|name| name.to_string()).collect(),
                MimeType::Specific(name) => vec![name],
            };
            for name in names {
                if !offer.iter().any(|(held, _)| *held == name) {
                    offer.push((name, bytes.clone()));
                }
            }
        }
        if request.destination == CopyDestination::Both {
            self.primary = Some(offer.clone());
        }
        self.regular = Some(offer);
        Ok(())
    }

    fn clear(&mut self, destination: CopyDestination) -> Result<(), String> {
        if destination == CopyDestination::Both {
            self.primary = None;
        }
        self.regular = None;
        Ok(())
    }

    fn sleep(&mut self, pause: Duration) {
        self.clock += pause.as_nanos();
        let due: Vec<_> = self.later.iter().filter(|(at, _)| *at <= self.clock).cloned().collect();
        self.later.retain(|(at, _)| *at > self.clock);
        for (_, offer) in due {
            if self.has_primary {
                self.primary = Some(offer.clone());
            }
            self.regular = Some(offer);
        }
    }
}

struct WaylandContext {
    core: WaylandClipboardContext,
    compositor: Compositor,
    sleeps: usize,
}

impl WaylandContext {
    fn on(compositor: Compositor) -> Result<WaylandContext, ClipboardError> {
        let core = WaylandClipboardContext::new(compositor.probe())?;
        Ok(WaylandContext { core, compositor, sleeps: 0 })
    }

    fn read(&mut self, first: PasteRequest) -> Result<Vec<u8>, ClipboardError> {
        let mut request = first;
        loop {
            let answer = self.compositor.paste(&request);
            match self.core.after_paste(request, answer) {
                Step::Call(next) => request = next,
                Step::Done(result) => return result,
            }
        }
    }

    fn publish(&mut self, request: CopyRequest) -> Result<(), ClipboardError> {
        finish(self.compositor.copy(request))
    }

    fn list(&self, source: PasteSource) -> Result<Vec<TargetMimeType>, ClipboardError> {
        self.core.after_mime_types(self.compositor.mime_types(source))
    }

    fn clear_on(&mut self, destination: CopyDestination) -> Result<(), ClipboardError> {
        finish(self.compositor.clear(destination))
    }
}

impl ClipboardProvider for WaylandContext {
    fn new() -> Result<WaylandContext, ClipboardError> {
        WaylandContext::on(Compositor::new(true))
    }

    fn get_contents(&mut self) -> Result<String, ClipboardError> {
        let request = self.core.get_contents();
        text_of(self.read(request))
    }

    fn set_contents(&mut self, contents: String) -> Result<(), ClipboardError> {
        let request = self.core.set_contents(contents);
        finish(self.compositor.copy(request))
    }

    fn get_target_contents(
        &mut self,
        target: TargetMimeType,
        _poll_duration: Duration,
    ) -> Result<Vec<u8>, ClipboardError> {
        let request = self.core.get_target_contents(target);
        self.read(request)
    }

    fn wait_for_target_contents(
        &mut self,
        target: TargetMimeType,
        poll_duration: Duration,
    ) -> Result<Vec<u8>, ClipboardError> {
        let started = self.compositor.clock;
        let (mut wait, mut request) = self.core.wait_for_target_contents(target, poll_duration);
        loop {
            let event = match request {
                WaitRequest::ListTargets => WaitEvent::Targets(self.list_targets()),
                WaitRequest::Read { target, poll_duration } => {
                    WaitEvent::Contents(self.get_target_contents(target, poll_duration))
                }
                WaitRequest::ReadClock => WaitEvent::Elapsed(self.compositor.clock - started),
                WaitRequest::Sleep { poll_duration } => {
                    self.sleeps += 1;
                    self.compositor.sleep(poll_duration);
                    WaitEvent::Slept
                }
                WaitRequest::Finish(result) => return result,
            };
            (wait, request) = wait.step(event);
        }
    }

    fn set_target_contents(
        &mut self,
        target: TargetMimeType,
        data: Vec<u8>,
    ) -> Result<(), ClipboardError> {
        let request = self.core.set_target_contents(target, data);
        finish(self.compositor.copy(request))
    }

    fn set_multiple_targets(
        &mut self,
        targets: Vec<(TargetMimeType, Vec<u8>)>,
    ) -> Result<(), ClipboardError> {
        let request = self.core.set_multiple_targets(targets);
        finish(self.compositor.copy(request))
    }

    fn list_targets(&self) -> Result<Vec<TargetMimeType>, ClipboardError> {
        let source = self.core.list_targets();
        self.core.after_mime_types(self.compositor.mime_types(source))
    }

    fn clear(&mut self) -> Result<(), ClipboardError> {
        let destination = self.core.clear();
        finish(self.compositor.clear(destination))
    }
}

// ---------------------------------------------------------------------------
// An X11 server in memory.

struct Server {
    reachable: bool,
    refuses_store: bool,
    refused_names: Vec<String>,
    interns: Vec<(String, bool)>,
    stores: usize,
    names: Vec<String>,
    /// For each selection, by atom: the owner's offer, by target atom.
    selections: Vec<(Atom, Vec<(Atom, Vec<u8>)>)>,
    loads: Vec<LoadRequest>,
    lists: Vec<ListRequest>,
    clock: u128,
    later: Vec<(u128, Atom, Vec<(String, Vec<u8>)>)>,
}

impl Server {
    fn new() -> Server {
        let names = ["PRIMARY", "CLIPBOARD", "THIS_CLIPBOARD_OUT", "TARGETS", "UTF8_STRING"];
        Server {
            reachable: true,
            refuses_store: false,
            refused_names: Vec::new(),
            interns: Vec::new(),
            stores: 0,
            names: names.iter().map(|name| name.to_string()).collect(),
            selections: Vec::new(),
            loads: Vec::new(),
            lists: Vec::new(),
            clock: 0,
            later: Vec::new(),
        }
    }

    fn connect(&mut self) -> Result<Atoms, String> {
        if !self.reachable {
            return Err("XCB - couldn't establish conection".to_string());
        }
        Ok(Atoms {
            primary: self.atom("PRIMARY", false),
            clipboard: self.atom("CLIPBOARD", false),
            property: self.atom("THIS_CLIPBOARD_OUT", false),
            utf8_string: self.atom("UTF8_STRING", false),
        })
    }

    /// Atoms count from one; zero stands for no atom.
    fn atom(&mut self, name: &str, only_if_exists: bool) -> Atom {
        if let Some(at) = self.names.iter().position(|known| known == name) {
            return at as Atom + 1;
        }
        if only_if_exists {
            return 0;
        }
        self.names.push(name.to_string());
        self.names.len() as Atom
    }

    fn intern(&mut self, request: &InternRequest) -> Result<Atom, X11Failure> {
        self.interns.push((request.name.clone(), request.only_if_exists));
        if self.refused_names.contains(&request.name) {
            return Err(X11Failure::Other("XCB reply error".to_string()));
        }
        Ok(self.atom(&request.name, request.only_if_exists))
    }

    fn owner(&self, selection: Atom) -> Option<&Vec<(Atom, Vec<u8>)>> {
        self.selections.iter().find(|(atom, _)| *atom == selection).map(|(_, offer)| offer)
    }

    fn load(&mut self, request: LoadRequest) -> Result<Vec<u8>, X11Failure> {
        self.loads.push(request);
        match self.owner(request.selection) {
            None => Ok(Vec::new()),
            Some(offer) => match offer.iter().find(|(target, _)| *target == request.target) {
                Some((_, bytes)) => Ok(bytes.clone()),
                None => Err(X11Failure::UnexpectedType(0)),
            },
        }
    }

    fn store(&mut self, request: StoreRequest) -> Result<(), String> {
        if self.refuses_store {
            return Err("Failed to set new owner of XCB selection".to_string());
        }
        let mut offer: Vec<(Atom, Vec<u8>)> = Vec::new();
        for (atom, bytes) in request.entries {
            if !offer.iter().any(|(held, _)| *held == atom) {
                offer.push((atom, bytes));
            }
        }
        self.selections.retain(|(atom, _)| *atom != request.selection);
        self.selections.push((request.selection, offer));
        self.stores += 1;
        Ok(())
    }

    fn list(&mut self, request: ListRequest) -> Result<Vec<Vec<u8>>, X11Failure> {
        self.lists.push(request);
        let names = match self.owner(request.selection) {
            None => Vec::new(),
            Some(offer) => offer
                .iter()
                .map(|(atom, _)| self.names[*atom as usize - 1].clone().into_bytes())
                .collect(),
        };
        Ok(names)
    }

    fn clear(&mut self, selection: Atom) -> Result<(), String> {
        self.selections.retain(|(atom, _)| *atom != selection);
        Ok(())
    }

    fn sleep(&mut self, pause: Duration) {
        self.clock += pause.as_nanos();
        let due: Vec<_> = self.later.iter().filter(|(at, _, _)| *at <= self.clock).cloned().collect();
        self.later.retain(|(at, _, _)| *at > self.clock);
        for (_, selection, offer) in due {
            let entries = offer
                .into_iter()
                .map(|(name, bytes)| (self.atom(&name, false), bytes))
                .collect();
            self.store(StoreRequest { selection, entries }).unwrap();
        }
    }
}

struct X11Context<S: Selection = Clipboard> {
    core: X11ClipboardContext<S>,
    server: Server,
    sleeps: usize,
}

impl<S: Selection> X11Context<S> {
    fn on(mut server: Server) -> Result<X11Context<S>, ClipboardError> {
        let core = X11ClipboardContext::new(server.connect())?;
        Ok(X11Context { core, server, sleeps: 0 })
    }

    fn text(&mut self, request: LoadRequest) -> Result<String, ClipboardError> {
        let answer = self.server.load(request);
        text_of(self.core.after_load(answer))
    }

    fn read(&mut self, first: Step<ReadRequest, Vec<u8>>) -> Result<Vec<u8>, ClipboardError> {
        let load = match first {
            Step::Done(result) => return result,
            Step::Call(ReadRequest::Load(load)) => load,
            Step::Call(ReadRequest::Intern(intern)) => {
                let answer = self.server.intern(&intern);
                match self.core.after_intern(answer) {
                    Step::Done(result) => return result,
                    Step::Call(load) => load,
                }
            }
        };
        let answer = self.server.load(load);
        self.core.after_load(answer)
    }

    fn listed(&self, request: ListRequest) -> Result<Vec<TargetMimeType>, ClipboardError> {
        let names = match self.server.owner(request.selection) {
            None => Vec::new(),
            Some(offer) => offer
                .iter()
                .map(|(atom, _)| self.server.names[*atom as usize - 1].clone().into_bytes())
                .collect(),
        };
        self.core.after_list(Ok(names))
    }

    fn cleared(&mut self, selection: Atom) -> Result<(), ClipboardError> {
        finish(self.server.clear(selection))
    }

    fn store(&mut self, storing: Storing) -> Result<(), ClipboardError> {
        let (mut storing, mut step) = storing.begin();
        loop {
            match step {
                Step::Call(lookup) => {
                    let answer = self.server.intern(&lookup);
                    (storing, step) = storing.after_intern(answer);
                }
                Step::Done(Ok(request)) => return finish(self.server.store(request)),
                Step::Done(Err(error)) => return Err(error),
            }
        }
    }
}

impl<S: Selection> ClipboardProvider for X11Context<S> {
    fn new() -> Result<X11Context<S>, ClipboardError> {
        X11Context::on(Server::new())
    }

    fn get_contents(&mut self) -> Result<String, ClipboardError> {
        let request = self.core.get_contents();
        let answer = self.server.load(request);
        text_of(self.core.after_load(answer))
    }

    fn set_contents(&mut self, contents: String) -> Result<(), ClipboardError> {
        let storing = self.core.set_contents(contents);
        self.store(storing)
    }

    fn get_target_contents(
        &mut self,
        target: TargetMimeType,
        _poll_duration: Duration,
    ) -> Result<Vec<u8>, ClipboardError> {
        let load = match self.core.get_target_contents(target) {
            Step::Done(result) => return result,
            Step::Call(ReadRequest::Load(load)) => load,
            Step::Call(ReadRequest::Intern(intern)) => {
                let answer = self.server.intern(&intern);
                match self.core.after_intern(answer) {
                    Step::Done(result) => return result,
                    Step::Call(load) => load,
                }
            }
        };
        let answer = self.server.load(load);
        self.core.after_load(answer)
    }

    fn wait_for_target_contents(
        &mut self,
        target: TargetMimeType,
        poll_duration: Duration,
    ) -> Result<Vec<u8>, ClipboardError> {
        let started = self.server.clock;
        let (mut wait, mut request) = self.core.wait_for_target_contents(target, poll_duration);
        loop {
            let event = match request {
                WaitRequest::ListTargets => WaitEvent::Targets(self.list_targets()),
                WaitRequest::Read { target, poll_duration } => {
                    WaitEvent::Contents(self.get_target_contents(target, poll_duration))
                }
                WaitRequest::ReadClock => WaitEvent::Elapsed(self.server.clock - started),
                WaitRequest::Sleep { poll_duration } => {
                    self.sleeps += 1;
                    self.server.sleep(poll_duration);
                    WaitEvent::Slept
                }
                WaitRequest::Finish(result) => return result,
            };
            (wait, request) = wait.step(event);
        }
    }

    fn set_target_contents(
        &mut self,
        target: TargetMimeType,
        data: Vec<u8>,
    ) -> Result<(), ClipboardError> {
        let storing = self.core.set_target_contents(target, data);
        self.store(storing)
    }

    fn set_multiple_targets(
        &mut self,
        targets: Vec<(TargetMimeType, Vec<u8>)>,
    ) -> Result<(), ClipboardError> {
        let storing = self.core.set_multiple_targets(targets);
        self.store(storing)
    }

    fn list_targets(&self) -> Result<Vec<TargetMimeType>, ClipboardError> {
        let request = self.core.list_targets();
        let names = match self.server.owner(request.selection) {
            None => Vec::new(),
            Some(offer) => offer
                .iter()
                .map(|(atom, _)| self.server.names[*atom as usize - 1].clone().into_bytes())
                .collect(),
        };
        self.core.after_list(Ok(names))
    }

    fn clear(&mut self) -> Result<(), ClipboardError> {
        let selection = self.core.clear();
        finish(self.server.clear(selection))
    }
}

// ---------------------------------------------------------------------------
// A Linux desktop: a compositor, a server, or both.

enum Desktop {
    Wayland(WaylandContext),
    X11(X11Context),
}

struct LinuxContextOnDesktop {
    core: LinuxClipboardContext,
    desktop: Desktop,
}

impl LinuxContextOnDesktop {
    fn on(compositor: Compositor, server: Server) -> Result<LinuxContextOnDesktop, ClipboardError> {
        let wayland = WaylandClipboardContext::new(compositor.probe());
        match LinuxClipboardContext::new(wayland) {
            Some(core) => {
                let context = match core.backend() {
                    LinuxContext::Wayland(chosen) => chosen.clone(),
                    LinuxContext::X11(_) => unreachable!(),
                };
                let desktop = Desktop::Wayland(WaylandContext { core: context, compositor, sleeps: 0 });
                Ok(LinuxContextOnDesktop { core, desktop })
            }
            None => {
                let mut server = server;
                let x11 = X11ClipboardContext::<Clipboard>::new(server.connect());
                let core = LinuxClipboardContext::fallback(x11)?;
                let atoms = server.connect().unwrap();
                let context = X11ClipboardContext::<Clipboard>::new(Ok(atoms)).unwrap();
                let desktop = Desktop::X11(X11Context { core: context, server, sleeps: 0 });
                Ok(LinuxContextOnDesktop { core, desktop })
            }
        }
    }
}

impl ClipboardProvider for LinuxContextOnDesktop {
    /// A desktop with an X11 server and no compositor.
    fn new() -> Result<LinuxContextOnDesktop, ClipboardError> {
        let mut compositor = Compositor::new(false);
        compositor.reachable = false;
        LinuxContextOnDesktop::on(compositor, Server::new())
    }

    fn get_contents(&mut self) -> Result<String, ClipboardError> {
        match (self.core.get_contents(), &mut self.desktop) {
            (Routed::Wayland(request), Desktop::Wayland(context)) => text_of(context.read(request)),
            (Routed::X11(request), Desktop::X11(context)) => context.text(request),
            _ => unreachable!(),
        }
    }

    fn set_contents(&mut self, contents: String) -> Result<(), ClipboardError> {
        match (self.core.set_contents(contents), &mut self.desktop) {
            (Routed::Wayland(request), Desktop::Wayland(context)) => context.publish(request),
            (Routed::X11(storing), Desktop::X11(context)) => context.store(storing),
            _ => unreachable!(),
        }
    }

    fn get_target_contents(
        &mut self,
        target: TargetMimeType,
        _poll_duration: Duration,
    ) -> Result<Vec<u8>, ClipboardError> {
        match (self.core.get_target_contents(target), &mut self.desktop) {
            (Routed::Wayland(request), Desktop::Wayland(context)) => context.read(request),
            (Routed::X11(first), Desktop::X11(context)) => context.read(first),
            _ => unreachable!(),
        }
    }

    fn wait_for_target_contents(
        &mut self,
        target: TargetMimeType,
        poll_duration: Duration,
    ) -> Result<Vec<u8>, ClipboardError> {
        match &mut self.desktop {
            Desktop::Wayland(context) => context.wait_for_target_contents(target, poll_duration),
            Desktop::X11(context) => context.wait_for_target_contents(target, poll_duration),
        }
    }

    fn set_target_contents(
        &mut self,
        target: TargetMimeType,
        data: Vec<u8>,
    ) -> Result<(), ClipboardError> {
        match (self.core.set_target_contents(target, data), &mut self.desktop) {
            (Routed::Wayland(request), Desktop::Wayland(context)) => context.publish(request),
            (Routed::X11(storing), Desktop::X11(context)) => context.store(storing),
            _ => unreachable!(),
        }
    }

    fn set_multiple_targets(
        &mut self,
        targets: Vec<(TargetMimeType, Vec<u8>)>,
    ) -> Result<(), ClipboardError> {
        match (self.core.set_multiple_targets(targets), &mut self.desktop) {
            (Routed::Wayland(request), Desktop::Wayland(context)) => context.publish(request),
            (Routed::X11(storing), Desktop::X11(context)) => context.store(storing),
            _ => unreachable!(),
        }
    }

    fn list_targets(&self) -> Result<Vec<TargetMimeType>, ClipboardError> {
        match (self.core.list_targets(), &self.desktop) {
            (Routed::Wayland(source), Desktop::Wayland(context)) => context.list(source),
            (Routed::X11(request), Desktop::X11(context)) => context.listed(request),
            _ => unreachable!(),
        }
    }

    fn clear(&mut self) -> Result<(), ClipboardError> {
        match (self.core.clear(), &mut self.desktop) {
            (Routed::Wayland(destination), Desktop::Wayland(context)) => context.clear_on(destination),
            (Routed::X11(selection), Desktop::X11(context)) => context.cleared(selection),
            _ => unreachable!(),
        }
    }
}

fn names(targets: Vec<TargetMimeType>) -> Vec<String> {
    targets
        .into_iter()
        .map(|t| match t {
            TargetMimeType::Specific(s) => s,
            _ => panic!("unexpected"),
        })
        .collect()
}

const MILLI: u128 = 1_000_000;

// ---------------------------------------------------------------------------
// The context of the platform.

#[test]
fn test_clipboard() {
    type ClipboardContext = LinuxContextOnDesktop;
    let mut ctx = ClipboardContext::new().unwrap();
    ctx.set_contents("some string".to_owned()).unwrap();
    assert!(ctx.get_contents().unwrap() == "some string");
}

#[test]
fn linux_prefers_wayland() {
    let context = LinuxContextOnDesktop::on(Compositor::new(true), Server::new()).unwrap();
    assert!(context.core.is_wayland());
    assert!(matches!(context.core.backend(), LinuxContext::Wayland(_)));
    assert!(matches!(context.desktop, Desktop::Wayland(_)));
}

#[test]
fn linux_takes_wayland_without_seats() {
    let mut compositor = Compositor::new(true);
    compositor.seats = false;
    let context = LinuxContextOnDesktop::on(compositor, Server::new()).unwrap();
    match context.core.backend() {
        LinuxContext::Wayland(chosen) => assert!(!chosen.supports_primary_selection()),
        LinuxContext::X11(_) => panic!("unexpected"),
    }
}

#[test]
fn linux_falls_back_to_x11() {
    let mut compositor = Compositor::new(true);
    compositor.reachable = false;
    let context = LinuxContextOnDesktop::on(compositor, Server::new()).unwrap();
    assert!(!context.core.is_wayland());
    assert!(matches!(context.core.backend(), LinuxContext::X11(_)));
}

#[test]
fn linux_reports_the_error_of_x11_when_both_fail() {
    let mut compositor = Compositor::new(true);
    compositor.reachable = false;
    let mut server = Server::new();
    server.reachable = false;
    match LinuxContextOnDesktop::on(compositor, server) {
        Err(ClipboardError::Construction(message)) => {
            assert_eq!(message, "XCB - couldn't establish conection")
        }
        _ => panic!("unexpected"),
    }
}

#[test]
fn linux_round_trip_on_wayland() {
    let mut context = LinuxContextOnDesktop::on(Compositor::new(true), Server::new()).unwrap();
    context.set_contents("some string".to_owned()).unwrap();
    assert_eq!(context.get_contents().unwrap(), "some string");
    context.clear().unwrap();
    assert_eq!(context.get_contents().unwrap(), "");
    assert!(context.list_targets().unwrap().is_empty());
}

// ---------------------------------------------------------------------------
// Wayland.

#[test]
fn wayland_clipboard_test_get_target_contents_return_immediately() {
    type ClipboardContext = WaylandContext;
    let poll_duration = Duration::from_secs(1);
    let mut context = ClipboardContext::new().unwrap();
    context
        .set_target_contents("initial-target".into(), b"initial".to_vec())
        .unwrap();
    assert!(context
        .get_target_contents("second-target".into(), poll_duration)
        .unwrap()
        .is_empty());
    assert_eq!(
        context
            .get_target_contents("initial-target".into(), poll_duration)
            .unwrap(),
        b"initial"
    );
}

#[test]
fn wayland_get_set_contents() {
    let contents = "hello test";
    let mut context = WaylandContext::new().unwrap();
    context.set_contents(contents.to_string()).unwrap();
    let result = context.get_contents().unwrap();
    assert_eq!(contents, result);
    let held = context.compositor.regular.as_ref().unwrap();
    let listed = held.iter().find(|(name, _)| name == "UTF8_STRING").unwrap();
    assert_eq!(contents.as_bytes(), listed.1);
}

#[test]
fn wayland_set_get_defined_targets() {
    let poll_duration = Duration::from_secs(1);
    let contents = b"hello test";
    let data = [
        (TargetMimeType::Text, "UTF8_STRING"),
        (TargetMimeType::Files, "text/uri-list"),
        (TargetMimeType::Bitmap, "image/png"),
        (TargetMimeType::Specific("x-clipsync".to_string()), "x-clipsync"),
    ];
    let mut context = WaylandContext::new().unwrap();
    for (target, expected) in data {
        context
            .set_target_contents(target.clone(), contents.to_vec())
            .unwrap();
        let result = context.get_target_contents(target, poll_duration).unwrap();
        assert_eq!(contents.as_slice(), result);
        let held = context.compositor.primary.as_ref().unwrap();
        let listed = held.iter().find(|(name, _)| name == expected).unwrap();
        assert_eq!(contents.as_slice(), listed.1);
    }
}

#[test]
fn wayland_set_large_target_contents() {
    let poll_duration = Duration::from_secs(1);
    let contents = "X".repeat(100000);
    let mut context = WaylandContext::new().unwrap();
    context
        .set_target_contents("large".into(), contents.clone().into_bytes())
        .unwrap();
    let result = context
        .get_target_contents("large".into(), poll_duration)
        .unwrap();
    assert_eq!(contents.as_bytes().to_vec(), result);
}

#[test]
fn wayland_set_multiple_target_contents() {
    let poll_duration = Duration::from_secs(1);
    let c1 = "yes plain".as_bytes();
    let c2 = "yes html".as_bytes();
    let c3 = "yes files".as_bytes();
    let mut context = WaylandContext::new().unwrap();
    let mut hash = Vec::new();
    hash.push(("jumbo".into(), c1.to_vec()));
    hash.push(("html".into(), c2.to_vec()));
    hash.push(("files".into(), c3.to_vec()));
    context.set_multiple_targets(hash).unwrap();
    assert_eq!(c1, context.get_target_contents("jumbo".into(), poll_duration).unwrap());
    assert_eq!(c2, context.get_target_contents("html".into(), poll_duration).unwrap());
    assert_eq!(c3, context.get_target_contents("files".into(), poll_duration).unwrap());
    let mut listed = names(context.list_targets().unwrap());
    listed.sort();
    assert_eq!(listed, vec!["files", "html", "jumbo"]);
}

#[test]
fn wayland_multiple_targets_first_of_a_type_wins() {
    let poll_duration = Duration::from_secs(1);
    let mut context = WaylandContext::new().unwrap();
    let targets = vec![
        (TargetMimeType::Files, b"first".to_vec()),
        (TargetMimeType::Specific("text/uri-list".to_string()), b"second".to_vec()),
    ];
    let request = context.core.set_multiple_targets(targets.clone());
    assert_eq!(request.sources.len(), 2);
    context.set_multiple_targets(targets).unwrap();
    assert_eq!(
        context.get_target_contents(TargetMimeType::Files, poll_duration).unwrap(),
        b"first"
    );
}

#[test]
fn wayland_reads_primary_first_and_writes_both() {
    let context = WaylandContext::on(Compositor::new(true)).unwrap();
    assert!(context.core.supports_primary_selection());
    assert_eq!(context.core.get_contents().source, PasteSource::Primary);
    assert_eq!(context.core.list_targets(), PasteSource::Primary);
    assert_eq!(context.core.clear(), CopyDestination::Both);
    let request = context.core.set_target_contents(TargetMimeType::Bitmap, vec![1, 2]);
    assert_eq!(request.destination, CopyDestination::Both);
    assert_eq!(request.sources.len(), 1);
    assert!(matches!(&request.sources[0].0, MimeType::Specific(s) if s == "image/png"));
    assert_eq!(request.sources[0].1, vec![1, 2]);
}

#[test]
fn wayland_without_primary_uses_the_regular_clipboard() {
    let mut context = WaylandContext::on(Compositor::new(false)).unwrap();
    assert!(!context.core.supports_primary_selection());
    assert_eq!(context.core.get_contents().source, PasteSource::Regular);
    assert_eq!(context.core.list_targets(), PasteSource::Regular);
    assert_eq!(context.core.clear(), CopyDestination::Regular);
    context.set_contents("regular".to_string()).unwrap();
    assert!(context.compositor.primary.is_none());
    assert_eq!(context.get_contents().unwrap(), "regular");
    assert_eq!(context.compositor.pastes, vec![PasteSource::Regular]);
}

#[test]
fn wayland_no_seats_means_no_primary_selection() {
    let mut compositor = Compositor::new(true);
    compositor.seats = false;
    let mut context = WaylandContext::on(compositor).unwrap();
    assert!(!context.core.supports_primary_selection());
    assert!(context.get_target_contents("any".into(), Duration::from_secs(1)).unwrap().is_empty());
    assert!(context.list_targets().unwrap().is_empty());
}

#[test]
fn wayland_construction_fails_without_compositor() {
    let mut compositor = Compositor::new(true);
    compositor.reachable = false;
    match WaylandContext::on(compositor) {
        Err(ClipboardError::Construction(message)) => assert_eq!(message, "no compositor"),
        _ => panic!("unexpected"),
    }
}

#[test]
fn wayland_falls_back_to_regular_when_primary_fails() {
    let mut context = WaylandContext::on(Compositor::new(true)).unwrap();
    context.set_target_contents("jumbo".into(), b"data".to_vec()).unwrap();
    context.compositor.primary_broken = true;
    let result = context.get_target_contents("jumbo".into(), Duration::from_secs(1)).unwrap();
    assert_eq!(result, b"data");
    assert_eq!(context.compositor.pastes, vec![PasteSource::Primary, PasteSource::Regular]);
}

#[test]
fn wayland_after_paste_cases() {
    let context = WaylandContext::on(Compositor::new(true)).unwrap();
    let core = &context.core;
    let request = |source| PasteRequest { source, mime: MimeType::Specific("a/b".to_string()) };
    let failures = || {
        [
            PasteFailure::NoSeats,
            PasteFailure::ClipboardEmpty,
            PasteFailure::NoMimeType,
            PasteFailure::Other("x".to_string()),
        ]
    };
    for source in [PasteSource::Primary, PasteSource::Regular] {
        match core.after_paste(request(source), Ok(vec![7, 8])) {
            Step::Done(Ok(bytes)) => assert_eq!(bytes, vec![7, 8]),
            _ => panic!("unexpected"),
        }
        match core.after_paste(request(source), Ok(Vec::new())) {
            Step::Done(Ok(bytes)) => assert!(bytes.is_empty()),
            _ => panic!("unexpected"),
        }
        match core.after_paste(request(source), Err(PasteFailure::Transfer("pipe".to_string()))) {
            Step::Done(Err(ClipboardError::Protocol(message))) => assert_eq!(message, "pipe"),
            _ => panic!("unexpected"),
        }
    }
    for failure in failures() {
        match core.after_paste(request(PasteSource::Primary), Err(failure)) {
            Step::Call(next) => {
                assert_eq!(next.source, PasteSource::Regular);
                assert!(matches!(next.mime, MimeType::Specific(s) if s == "a/b"));
            }
            _ => panic!("unexpected"),
        }
    }
    for absent in [PasteFailure::NoSeats, PasteFailure::ClipboardEmpty, PasteFailure::NoMimeType] {
        match core.after_paste(request(PasteSource::Regular), Err(absent)) {
            Step::Done(Ok(bytes)) => assert!(bytes.is_empty()),
            _ => panic!("unexpected"),
        }
    }
    match core.after_paste(request(PasteSource::Regular), Err(PasteFailure::Other("x".to_string()))) {
        Step::Done(Err(ClipboardError::Protocol(message))) => assert_eq!(message, "x"),
        _ => panic!("unexpected"),
    }
    match core.after_paste(
        PasteRequest { source: PasteSource::Primary, mime: MimeType::Text },
        Err(PasteFailure::NoMimeType),
    ) {
        Step::Call(next) => {
            assert_eq!(next.source, PasteSource::Regular);
            assert!(matches!(next.mime, MimeType::Text));
        }
        _ => panic!("unexpected"),
    }
}

#[test]
fn wayland_reads_the_regular_clipboard_when_primary_lacks_the_target() {
    let poll_duration = Duration::from_secs(1);
    let mut context = WaylandContext::on(Compositor::new(true)).unwrap();
    context.compositor.regular = Some(vec![("wanted".to_string(), b"from regular".to_vec())]);
    context.compositor.primary = Some(vec![("other".to_string(), b"marked".to_vec())]);
    let result = context.get_target_contents("wanted".into(), poll_duration).unwrap();
    assert_eq!(result, b"from regular");
    assert_eq!(context.compositor.pastes, vec![PasteSource::Primary, PasteSource::Regular]);
}

#[test]
fn wayland_reads_the_regular_clipboard_when_primary_is_empty() {
    let poll_duration = Duration::from_secs(1);
    let mut context = WaylandContext::on(Compositor::new(true)).unwrap();
    context.compositor.regular = Some(vec![("UTF8_STRING".to_string(), b"copied".to_vec())]);
    context.compositor.primary = None;
    assert_eq!(
        context.get_target_contents(TargetMimeType::Text, poll_duration).unwrap(),
        b"copied"
    );
    assert_eq!(context.get_contents().unwrap(), "copied");
    assert_eq!(
        context.compositor.pastes,
        vec![PasteSource::Primary, PasteSource::Regular, PasteSource::Primary, PasteSource::Regular]
    );
}

#[test]
fn wayland_prefers_the_primary_selection_where_it_has_the_target() {
    let poll_duration = Duration::from_secs(1);
    let mut context = WaylandContext::on(Compositor::new(true)).unwrap();
    context.compositor.regular = Some(vec![("wanted".to_string(), b"from regular".to_vec())]);
    context.compositor.primary = Some(vec![("wanted".to_string(), b"from primary".to_vec())]);
    let result = context.get_target_contents("wanted".into(), poll_duration).unwrap();
    assert_eq!(result, b"from primary");
    assert_eq!(context.compositor.pastes, vec![PasteSource::Primary]);
}

#[test]
fn wayland_target_that_neither_clipboard_offers_is_empty() {
    let poll_duration = Duration::from_secs(1);
    let mut context = WaylandContext::on(Compositor::new(true)).unwrap();
    context.compositor.regular = Some(vec![("a".to_string(), b"1".to_vec())]);
    context.compositor.primary = Some(vec![("b".to_string(), b"2".to_vec())]);
    assert!(context.get_target_contents("wanted".into(), poll_duration).unwrap().is_empty());
    assert_eq!(context.compositor.pastes, vec![PasteSource::Primary, PasteSource::Regular]);
}

#[test]
fn wayland_broken_transfer_from_primary_is_an_error() {
    let context = WaylandContext::on(Compositor::new(true)).unwrap();
    let request = context.core.get_target_contents("wanted".into());
    assert_eq!(request.source, PasteSource::Primary);
    let failure = PasteFailure::Transfer("broken pipe".to_string());
    match context.core.after_paste(request, Err(failure)) {
        Step::Done(Err(ClipboardError::Protocol(message))) => assert_eq!(message, "broken pipe"),
        _ => panic!("unexpected"),
    }
}

#[test]
fn wayland_after_mime_types_cases() {
    let context = WaylandContext::on(Compositor::new(true)).unwrap();
    let listed = context
        .core
        .after_mime_types(Ok(vec!["b".to_string(), "a".to_string()]))
        .unwrap();
    assert_eq!(names(listed), vec!["b", "a"]);
    for absent in [PasteFailure::NoSeats, PasteFailure::ClipboardEmpty, PasteFailure::NoMimeType] {
        assert!(context.core.after_mime_types(Err(absent)).unwrap().is_empty());
    }
    match context.core.after_mime_types(Err(PasteFailure::Other("gone".to_string()))) {
        Err(ClipboardError::Protocol(message)) => assert_eq!(message, "gone"),
        _ => panic!("unexpected"),
    }
}

#[test]
fn wayland_get_contents_rejects_bytes_that_are_no_text() {
    let mut context = WaylandContext::new().unwrap();
    context.set_target_contents(TargetMimeType::Text, vec![0xff, 0xfe]).unwrap();
    assert!(matches!(context.get_contents(), Err(ClipboardError::Decoding)));
}

#[test]
fn wayland_wait_returns_present_target_without_sleeping() {
    let mut context = WaylandContext::new().unwrap();
    context.set_target_contents("files1".into(), b"yes files1".to_vec()).unwrap();
    let result = context
        .wait_for_target_contents("files1".into(), Duration::from_millis(500))
        .unwrap();
    assert_eq!(result, b"yes files1");
    assert_eq!(context.sleeps, 0);
}

#[test]
fn wayland_wait_for_non_existing_target() {
    let mut context = WaylandContext::new().unwrap();
    context.clear().unwrap();
    let result = context
        .wait_for_target_contents("non-existing-target".into(), Duration::from_millis(100))
        .unwrap();
    assert!(result.is_empty());
    assert_eq!(context.sleeps, 10);
    assert!(context.compositor.clock <= 1000 * MILLI);
}

#[test]
fn wayland_wait_obtains_target_set_by_another_client() {
    let mut context = WaylandContext::new().unwrap();
    context.clear().unwrap();
    context
        .compositor
        .later
        .push((100 * MILLI, vec![("custom".to_string(), b"data".to_vec())]));
    let result = context
        .wait_for_target_contents("custom".into(), Duration::from_millis(50))
        .unwrap();
    assert_eq!(result, b"data");
    assert_eq!(context.sleeps, 2);
    assert!(context.compositor.clock < 1000 * MILLI);
}

#[test]
fn wayland_empty_data_returned_when_targets_change() {
    let mut context = WaylandContext::new().unwrap();
    context.set_target_contents("initial-target".into(), b"initial".to_vec()).unwrap();
    context
        .compositor
        .later
        .push((200 * MILLI, vec![("third-target".to_string(), b"third-target-data".to_vec())]));
    let result = context
        .wait_for_target_contents("second-target".into(), Duration::from_millis(100))
        .unwrap();
    assert!(result.is_empty());
    assert_eq!(context.sleeps, 2);
    assert_eq!(
        context.get_target_contents("third-target".into(), Duration::from_millis(100)).unwrap(),
        b"third-target-data"
    );
}

// ---------------------------------------------------------------------------
// X11.

#[test]
fn x11_clipboard_test_get_target_contents_return_immediately() {
    type ClipboardContext = X11Context;
    let poll_duration = Duration::from_secs(1);
    let mut context = ClipboardContext::new().unwrap();
    context
        .set_target_contents("initial-target".into(), b"initial".to_vec())
        .unwrap();
    assert!(context
        .get_target_contents("second-target".into(), poll_duration)
        .unwrap()
        .is_empty());
    assert_eq!(
        context
            .get_target_contents("initial-target".into(), poll_duration)
            .unwrap(),
        b"initial"
    );
}

#[test]
fn x11_set_get_contents() {
    let contents = "hello test";
    let mut context = X11Context::<Clipboard>::new().unwrap();
    context.set_contents(contents.to_string()).unwrap();
    let result = context.get_contents().unwrap();
    assert_eq!(contents, result);
    assert_eq!(names(context.list_targets().unwrap()), vec!["UTF8_STRING"]);
    let load = context.server.loads[0];
    assert_eq!(load.timeout, Timeout::Millis(1000));
    assert_eq!(load.selection, context.server.atom("CLIPBOARD", true));
    assert_eq!(load.target, context.server.atom("UTF8_STRING", true));
    assert_eq!(load.property, context.server.atom("THIS_CLIPBOARD_OUT", true));
}

#[test]
fn x11_set_get_defined_targets() {
    let poll_duration = Duration::from_secs(1);
    let contents = b"hello test";
    let data = [
        (TargetMimeType::Text, "UTF8_STRING"),
        (TargetMimeType::Files, "text/uri-list"),
        (TargetMimeType::Bitmap, "image/png"),
        (TargetMimeType::Specific("x-clipsync".to_string()), "x-clipsync"),
    ];
    let mut context = X11Context::<Clipboard>::new().unwrap();
    for (target, expected) in data {
        context
            .set_target_contents(target.clone(), contents.to_vec())
            .unwrap();
        let result = context.get_target_contents(target, poll_duration).unwrap();
        assert_eq!(contents.as_slice(), result);
        assert_eq!(names(context.list_targets().unwrap()), vec![expected]);
    }
    assert!(context.server.loads.iter().all(|load| load.timeout == Timeout::PollDuration));
}

#[test]
fn x11_set_target_contents() {
    let poll_duration = Duration::from_secs(1);
    let contents = b"hello test";
    let mut context = X11Context::<Clipboard>::new().unwrap();
    context
        .set_target_contents("jumbo".into(), contents.to_vec())
        .unwrap();
    let result = context
        .get_target_contents("jumbo".into(), poll_duration)
        .unwrap();
    assert_eq!(contents.to_vec(), result);
}

#[test]
fn x11_set_large_target_contents() {
    let poll_duration = Duration::from_secs(1);
    let contents = "X".repeat(100000);
    let mut context = X11Context::<Clipboard>::new().unwrap();
    context
        .set_target_contents("large".into(), contents.clone().into_bytes())
        .unwrap();
    let result = context
        .get_target_contents("large".into(), poll_duration)
        .unwrap();
    assert_eq!(contents.as_bytes().to_vec(), result);
}

#[test]
fn x11_set_multiple_target_contents() {
    let poll_duration = Duration::from_secs(1);
    let c1 = "yes plain".as_bytes();
    let c2 = "yes html".as_bytes();
    let c3 = "yes files".as_bytes();
    let mut context = X11Context::<Clipboard>::new().unwrap();
    let mut hash = Vec::new();
    hash.push(("jumbo".into(), c1.to_vec()));
    hash.push(("html".into(), c2.to_vec()));
    hash.push(("files".into(), c3.to_vec()));
    context.set_multiple_targets(hash).unwrap();
    assert_eq!(c1, context.get_target_contents("jumbo".into(), poll_duration).unwrap());
    assert_eq!(c2, context.get_target_contents("html".into(), poll_duration).unwrap());
    assert_eq!(c3, context.get_target_contents("files".into(), poll_duration).unwrap());
    assert_eq!(names(context.list_targets().unwrap()), vec!["jumbo", "html", "files"]);
}

#[test]
fn x11_get_target_names_each_target() {
    let mut server = Server::new();
    let atoms = server.connect().unwrap();
    let context = X11ClipboardContext::<Clipboard>::new(Ok(atoms)).unwrap();
    assert!(matches!(
        context.get_target(TargetMimeType::Text),
        AtomSource::Known(atom) if atom == atoms.utf8_string
    ));
    assert!(matches!(
        context.get_target(TargetMimeType::Bitmap),
        AtomSource::Named(name) if name == "image/png"
    ));
    assert!(matches!(
        context.get_target(TargetMimeType::Files),
        AtomSource::Named(name) if name == "text/uri-list"
    ));
    assert!(matches!(
        context.get_target("x-clipsync".into()),
        AtomSource::Named(name) if name == "x-clipsync"
    ));
}

#[test]
fn x11_selections_have_their_own_atoms() {
    let atoms = Atoms { primary: 1, clipboard: 2, property: 3, utf8_string: 5 };
    assert_eq!(Primary::atom(&atoms), 1);
    assert_eq!(Clipboard::atom(&atoms), 2);
    let primary = X11ClipboardContext::<Primary>::new(Ok(atoms)).unwrap();
    let clipboard = X11ClipboardContext::<Clipboard>::new(Ok(atoms)).unwrap();
    assert_eq!(primary.clear(), 1);
    assert_eq!(clipboard.clear(), 2);
    assert_eq!(primary.get_contents().selection, 1);
    assert_eq!(clipboard.get_contents().selection, 2);
    match primary.set_contents("a".to_string()).begin().1 {
        Step::Done(Ok(request)) => {
            assert_eq!(request.selection, 1);
            assert_eq!(request.entries, vec![(5, b"a".to_vec())]);
        }
        _ => panic!("unexpected"),
    }
    assert_eq!(
        clipboard.list_targets(),
        ListRequest { selection: 2, timeout: Timeout::Millis(100) }
    );
}

#[test]
fn x11_primary_and_clipboard_are_apart() {
    let mut context = X11Context::<Primary>::on(Server::new()).unwrap();
    context.set_contents("marked".to_string()).unwrap();
    assert_eq!(context.get_contents().unwrap(), "marked");
    let clipboard = context.server.atom("CLIPBOARD", true);
    assert!(context.server.owner(clipboard).is_none());
}

#[test]
fn x11_read_steps() {
    let atoms = Atoms { primary: 1, clipboard: 2, property: 3, utf8_string: 5 };
    let context = X11ClipboardContext::<Clipboard>::new(Ok(atoms)).unwrap();
    let load = |target| LoadRequest { selection: 2, target, property: 3, timeout: Timeout::PollDuration };
    match context.get_target_contents(TargetMimeType::Text) {
        Step::Call(ReadRequest::Load(request)) => assert_eq!(request, load(5)),
        _ => panic!("unexpected"),
    }
    match context.get_target_contents(TargetMimeType::Files) {
        Step::Call(ReadRequest::Intern(request)) => {
            assert_eq!(request.name, "text/uri-list");
            assert!(request.only_if_exists);
        }
        _ => panic!("unexpected"),
    }
    match context.after_intern(Ok(0)) {
        Step::Done(Ok(bytes)) => assert!(bytes.is_empty()),
        _ => panic!("unexpected"),
    }
    match context.after_intern(Ok(9)) {
        Step::Call(request) => assert_eq!(request, load(9)),
        _ => panic!("unexpected"),
    }
    match context.after_intern(Err(X11Failure::Other("XCB reply error".to_string()))) {
        Step::Done(Err(ClipboardError::Protocol(message))) => assert_eq!(message, "XCB reply error"),
        _ => panic!("unexpected"),
    }
    assert_eq!(context.after_load(Ok(vec![1, 2, 3])).unwrap(), vec![1, 2, 3]);
    assert!(context.after_load(Err(X11Failure::UnexpectedType(7))).unwrap().is_empty());
    match context.after_load(Err(X11Failure::Other("Selection timed out".to_string()))) {
        Err(ClipboardError::Protocol(message)) => assert_eq!(message, "Selection timed out"),
        _ => panic!("unexpected"),
    }
}

#[test]
fn x11_text_atom_zero_reads_nothing() {
    let atoms = Atoms { primary: 1, clipboard: 2, property: 3, utf8_string: 0 };
    let context = X11ClipboardContext::<Clipboard>::new(Ok(atoms)).unwrap();
    match context.get_target_contents(TargetMimeType::Text) {
        Step::Done(Ok(bytes)) => assert!(bytes.is_empty()),
        _ => panic!("unexpected"),
    }
}

#[test]
fn x11_target_not_offered_by_the_owner_is_empty() {
    let mut context = X11Context::<Clipboard>::new().unwrap();
    context.set_target_contents("jumbo".into(), b"data".to_vec()).unwrap();
    context.set_target_contents("other".into(), b"more".to_vec()).unwrap();
    let result = context.get_target_contents("jumbo".into(), Duration::from_secs(1)).unwrap();
    assert!(result.is_empty());
    assert_eq!(context.server.loads.len(), 1);
}

#[test]
fn x11_list_rejects_names_that_are_no_text() {
    let atoms = Atoms { primary: 1, clipboard: 2, property: 3, utf8_string: 5 };
    let context = X11ClipboardContext::<Clipboard>::new(Ok(atoms)).unwrap();
    let listed = context.after_list(Ok(vec![b"TARGETS".to_vec(), "h\u{e9}".as_bytes().to_vec()]));
    assert_eq!(names(listed.unwrap()), vec!["TARGETS", "h\u{e9}"]);
    assert!(matches!(
        context.after_list(Ok(vec![b"ok".to_vec(), vec![0xc3]])),
        Err(ClipboardError::Decoding)
    ));
    match context.after_list(Err(X11Failure::Other("gone".to_string()))) {
        Err(ClipboardError::Protocol(message)) => assert_eq!(message, "gone"),
        _ => panic!("unexpected"),
    }
    match context.after_list(Err(X11Failure::UnexpectedType(3))) {
        Err(ClipboardError::Protocol(message)) => {
            assert_eq!(message, "the owner of the selection answered with an unexpected type")
        }
        _ => panic!("unexpected"),
    }
}

#[test]
fn x11_construction_fails_without_server() {
    let mut server = Server::new();
    server.reachable = false;
    match X11Context::<Clipboard>::on(server) {
        Err(ClipboardError::Construction(message)) => {
            assert_eq!(message, "XCB - couldn't establish conection")
        }
        _ => panic!("unexpected"),
    }
}

#[test]
fn x11_clear_gives_the_selection_up() {
    let mut context = X11Context::<Clipboard>::new().unwrap();
    context.set_contents("text".to_string()).unwrap();
    context.clear().unwrap();
    assert_eq!(context.get_contents().unwrap(), "");
    assert!(context.list_targets().unwrap().is_empty());
}

#[test]
fn x11_wait_for_non_existing_target() {
    let mut context = X11Context::<Clipboard>::new().unwrap();
    context.clear().unwrap();
    let result = context
        .wait_for_target_contents("non-existing-target".into(), Duration::from_millis(100))
        .unwrap();
    assert!(result.is_empty());
    assert_eq!(context.sleeps, 10);
}

#[test]
fn x11_wait_for_target_contents_while_changing_selection() {
    let mut context = X11Context::<Clipboard>::new().unwrap();
    context.clear().unwrap();
    let clipboard = context.server.atom("CLIPBOARD", true);
    context
        .server
        .later
        .push((100 * MILLI, clipboard, vec![("files1".to_string(), b"yes files1".to_vec())]));
    let result = context
        .wait_for_target_contents("files1".into(), Duration::from_millis(50))
        .unwrap();
    assert_eq!(result, b"yes files1");
    assert_eq!(context.sleeps, 2);
}

#[test]
fn x11_wait_ends_when_other_targets_appear() {
    let mut context = X11Context::<Clipboard>::new().unwrap();
    context.set_target_contents("initial-target".into(), b"initial".to_vec()).unwrap();
    let clipboard = context.server.atom("CLIPBOARD", true);
    context.server.later.push((
        50 * MILLI,
        clipboard,
        vec![
            ("second-target".to_string(), Vec::new()),
            ("third-target".to_string(), b"third-target-data".to_vec()),
        ],
    ));
    let result = context
        .wait_for_target_contents("second-target".into(), Duration::from_millis(50))
        .unwrap();
    assert!(result.is_empty());
    assert_eq!(context.sleeps, 1);
}

// ---------------------------------------------------------------------------
// Text and a list of files, on each backend.

#[test]
fn wayland_text_and_files_come_back_as_they_were_set() {
    let mut context = WaylandContext::new().unwrap();
    context.set_contents("hello test".to_string()).unwrap();
    assert_eq!(context.get_contents().unwrap(), "hello test");
    context
        .set_target_contents(TargetMimeType::Files, b"/a/path\n/b/path".to_vec())
        .unwrap();
    let result = context
        .get_target_contents(TargetMimeType::Files, Duration::from_secs(1))
        .unwrap();
    assert_eq!(result, b"/a/path\n/b/path");
}

#[test]
fn x11_text_and_files_come_back_as_they_were_set() {
    let mut context = X11Context::<Clipboard>::new().unwrap();
    context.set_contents("hello test".to_string()).unwrap();
    assert_eq!(context.get_contents().unwrap(), "hello test");
    context
        .set_target_contents(TargetMimeType::Files, b"/a/path\n/b/path".to_vec())
        .unwrap();
    let result = context
        .get_target_contents(TargetMimeType::Files, Duration::from_secs(1))
        .unwrap();
    assert_eq!(result, b"/a/path\n/b/path");
}

#[test]
fn wayland_wait_is_for_its_target_and_pause() {
    let core = WaylandClipboardContext::new(Ok(true)).unwrap();
    let pause = Duration::from_millis(250);
    let (wait, request) = core.wait_for_target_contents(TargetMimeType::from("files1"), pause);
    assert!(matches!(request, WaitRequest::ListTargets));
    let (wait, request) = wait.step(WaitEvent::Targets(Ok(Vec::new())));
    match request {
        WaitRequest::Read { target, poll_duration } => {
            assert_eq!(target, TargetMimeType::from("files1"));
            assert_eq!(poll_duration, pause);
        }
        _ => panic!("unexpected"),
    }
    let (wait, _) = wait.step(WaitEvent::Contents(Ok(Vec::new())));
    let (wait, _) = wait.step(WaitEvent::Targets(Ok(Vec::new())));
    let (_, request) = wait.step(WaitEvent::Elapsed(0));
    match request {
        WaitRequest::Sleep { poll_duration } => assert_eq!(poll_duration, pause),
        _ => panic!("unexpected"),
    }
}

#[test]
fn x11_wait_is_for_its_target_and_pause() {
    let atoms = Atoms { primary: 1, clipboard: 2, property: 3, utf8_string: 5 };
    let core = X11ClipboardContext::<Clipboard>::new(Ok(atoms)).unwrap();
    let pause = Duration::from_millis(250);
    let (wait, request) = core.wait_for_target_contents(TargetMimeType::Bitmap, pause);
    assert!(matches!(request, WaitRequest::ListTargets));
    let (wait, request) = wait.step(WaitEvent::Targets(Ok(Vec::new())));
    match request {
        WaitRequest::Read { target, poll_duration } => {
            assert_eq!(target, TargetMimeType::Bitmap);
            assert_eq!(poll_duration, pause);
        }
        _ => panic!("unexpected"),
    }
    let (wait, _) = wait.step(WaitEvent::Contents(Ok(Vec::new())));
    let (wait, _) = wait.step(WaitEvent::Targets(Ok(Vec::new())));
    let (_, request) = wait.step(WaitEvent::Elapsed(0));
    match request {
        WaitRequest::Sleep { poll_duration } => assert_eq!(poll_duration, pause),
        _ => panic!("unexpected"),
    }
}

#[test]
fn linux_wait_is_for_its_target_and_pause() {
    let context = LinuxContextOnDesktop::on(Compositor::new(true), Server::new()).unwrap();
    let core = &context.core;
    let pause = Duration::from_millis(250);
    let (wait, request) = core.wait_for_target_contents(TargetMimeType::from("custom"), pause);
    assert!(matches!(request, WaitRequest::ListTargets));
    let (wait, request) = wait.step(WaitEvent::Targets(Ok(Vec::new())));
    match request {
        WaitRequest::Read { target, poll_duration } => {
            assert_eq!(target, TargetMimeType::from("custom"));
            assert_eq!(poll_duration, pause);
        }
        _ => panic!("unexpected"),
    }
    let (wait, _) = wait.step(WaitEvent::Contents(Ok(Vec::new())));
    let (wait, _) = wait.step(WaitEvent::Targets(Ok(Vec::new())));
    let (_, request) = wait.step(WaitEvent::Elapsed(0));
    match request {
        WaitRequest::Sleep { poll_duration } => assert_eq!(poll_duration, pause),
        _ => panic!("unexpected"),
    }
}

#[test]
fn linux_wait_on_x11_is_for_its_target_and_pause() {
    let context = LinuxContextOnDesktop::new().unwrap();
    let core = &context.core;
    let pause = Duration::from_millis(250);
    let (wait, request) = core.wait_for_target_contents(TargetMimeType::Files, pause);
    assert!(matches!(request, WaitRequest::ListTargets));
    let (wait, request) = wait.step(WaitEvent::Targets(Ok(Vec::new())));
    match request {
        WaitRequest::Read { target, poll_duration } => {
            assert_eq!(target, TargetMimeType::Files);
            assert_eq!(poll_duration, pause);
        }
        _ => panic!("unexpected"),
    }
    let (wait, _) = wait.step(WaitEvent::Contents(Ok(Vec::new())));
    let (wait, _) = wait.step(WaitEvent::Targets(Ok(Vec::new())));
    let (_, request) = wait.step(WaitEvent::Elapsed(0));
    match request {
        WaitRequest::Sleep { poll_duration } => assert_eq!(poll_duration, pause),
        _ => panic!("unexpected"),
    }
}

#[test]
fn x11_write_looks_names_up_with_leave_to_make_them() {
    let atoms = Atoms { primary: 1, clipboard: 2, property: 3, utf8_string: 5 };
    let context = X11ClipboardContext::<Clipboard>::new(Ok(atoms)).unwrap();
    let storing = context.set_multiple_targets(vec![
        (TargetMimeType::Text, b"text".to_vec()),
        ("x-ClipSync".into(), b"custom".to_vec()),
        (TargetMimeType::Files, b"/a".to_vec()),
        (TargetMimeType::Bitmap, vec![0x89]),
    ]);
    let (storing, step) = storing.begin();
    match step {
        Step::Call(lookup) => {
            assert_eq!(lookup.name, "x-ClipSync");
            assert!(!lookup.only_if_exists);
        }
        _ => panic!("unexpected"),
    }
    let (storing, step) = storing.after_intern(Ok(40));
    match step {
        Step::Call(lookup) => {
            assert_eq!(lookup.name, "text/uri-list");
            assert!(!lookup.only_if_exists);
        }
        _ => panic!("unexpected"),
    }
    let (storing, step) = storing.after_intern(Ok(41));
    match step {
        Step::Call(lookup) => {
            assert_eq!(lookup.name, "image/png");
            assert!(!lookup.only_if_exists);
        }
        _ => panic!("unexpected"),
    }
    let (storing, step) = storing.after_intern(Ok(42));
    match step {
        Step::Done(Ok(request)) => {
            assert_eq!(request.selection, 2);
            assert_eq!(
                request.entries,
                vec![
                    (5, b"text".to_vec()),
                    (40, b"custom".to_vec()),
                    (41, b"/a".to_vec()),
                    (42, vec![0x89]),
                ]
            );
        }
        _ => panic!("unexpected"),
    }
    let (_, step) = storing.after_intern(Ok(43));
    match step {
        Step::Done(Err(ClipboardError::Protocol(message))) => {
            assert_eq!(message, "the write was driven out of turn")
        }
        _ => panic!("unexpected"),
    }
}

#[test]
fn x11_write_of_text_needs_no_lookup() {
    let atoms = Atoms { primary: 1, clipboard: 2, property: 3, utf8_string: 5 };
    let context = X11ClipboardContext::<Primary>::new(Ok(atoms)).unwrap();
    match context.set_target_contents(TargetMimeType::Text, b"marked".to_vec()).begin().1 {
        Step::Done(Ok(request)) => {
            assert_eq!(request.selection, 1);
            assert_eq!(request.entries, vec![(5, b"marked".to_vec())]);
        }
        _ => panic!("unexpected"),
    }
    match context.set_multiple_targets(Vec::new()).begin().1 {
        Step::Done(Ok(request)) => assert!(request.entries.is_empty()),
        _ => panic!("unexpected"),
    }
}

#[test]
fn x11_failed_lookup_ends_the_write_before_anything_is_stored() {
    let atoms = Atoms { primary: 1, clipboard: 2, property: 3, utf8_string: 5 };
    let context = X11ClipboardContext::<Clipboard>::new(Ok(atoms)).unwrap();
    let storing = context.set_multiple_targets(vec![
        ("first".into(), b"1".to_vec()),
        ("second".into(), b"2".to_vec()),
    ]);
    let (storing, _) = storing.begin();
    let (storing, step) = storing.after_intern(Err(X11Failure::Other("XCB reply error".to_string())));
    match step {
        Step::Done(Err(ClipboardError::Protocol(message))) => assert_eq!(message, "XCB reply error"),
        _ => panic!("unexpected"),
    }
    let (storing, step) = storing.after_intern(Ok(9));
    assert!(matches!(step, Step::Done(Err(ClipboardError::Protocol(_)))));
    assert!(matches!(storing.begin().1, Step::Done(Err(ClipboardError::Protocol(_)))));

    let mut driven = X11Context::<Clipboard>::new().unwrap();
    driven.set_contents("held".to_string()).unwrap();
    driven.server.refused_names.push("second".to_string());
    let result = driven.set_multiple_targets(vec![
        ("first".into(), b"1".to_vec()),
        ("second".into(), b"2".to_vec()),
        ("third".into(), b"3".to_vec()),
    ]);
    match result {
        Err(ClipboardError::Protocol(message)) => assert_eq!(message, "XCB reply error"),
        _ => panic!("unexpected"),
    }
    assert_eq!(driven.server.stores, 1);
    assert_eq!(driven.get_contents().unwrap(), "held");
    assert_eq!(
        driven.server.interns,
        vec![("first".to_string(), false), ("second".to_string(), false)]
    );
}

#[test]
fn x11_write_out_of_turn_is_refused() {
    let atoms = Atoms { primary: 1, clipboard: 2, property: 3, utf8_string: 5 };
    let context = X11ClipboardContext::<Clipboard>::new(Ok(atoms)).unwrap();
    let storing = context.set_target_contents("name".into(), b"1".to_vec());
    let (_, step) = storing.after_intern(Ok(7));
    assert!(matches!(step, Step::Done(Err(ClipboardError::Protocol(_)))));
    let storing = context.set_target_contents("name".into(), b"1".to_vec());
    let (storing, _) = storing.begin();
    assert!(matches!(storing.begin().1, Step::Done(Err(ClipboardError::Protocol(_)))));
}

#[test]
fn x11_reads_look_names_up_without_making_them_and_writes_make_them() {
    let mut context = X11Context::<Clipboard>::new().unwrap();
    assert!(context.get_target_contents("jumbo".into(), Duration::from_secs(1)).unwrap().is_empty());
    assert_eq!(context.server.atom("jumbo", true), 0);
    context.set_target_contents("jumbo".into(), b"data".to_vec()).unwrap();
    assert_ne!(context.server.atom("jumbo", true), 0);
    assert_eq!(
        context.server.interns,
        vec![("jumbo".to_string(), true), ("jumbo".to_string(), false)]
    );
    context.server.refuses_store = true;
    match context.set_target_contents("jumbo".into(), b"more".to_vec()) {
        Err(ClipboardError::Protocol(message)) => {
            assert_eq!(message, "Failed to set new owner of XCB selection")
        }
        _ => panic!("unexpected"),
    }
}

#[test]
fn wayland_offers_are_served_in_the_background_for_every_seat() {
    for primary in [true, false] {
        let core = WaylandClipboardContext::new(Ok(primary)).unwrap();
        let requests = [
            core.set_contents("text".to_string()),
            core.set_target_contents(TargetMimeType::Files, b"/a".to_vec()),
            core.set_multiple_targets(vec![("a".into(), vec![1]), ("b".into(), vec![2])]),
            core.set_multiple_targets(Vec::new()),
        ];
        for request in requests {
            assert!(matches!(request.seat, CopySeat::All));
            assert!(!request.trim_newline);
            assert!(!request.foreground);
            assert_eq!(request.serve_requests, ServeRequests::Unlimited);
            let expected = if primary { CopyDestination::Both } else { CopyDestination::Regular };
            assert_eq!(request.destination, expected);
        }
    }
}

#[test]
fn wayland_text_keeps_its_line_feed() {
    let mut context = WaylandContext::new().unwrap();
    context.set_contents("line\n".to_string()).unwrap();
    assert_eq!(context.get_contents().unwrap(), "line\n");
}

#[test]
fn linux_forwards_to_wayland_where_it_was_chosen() {
    let context = LinuxContextOnDesktop::on(Compositor::new(true), Server::new()).unwrap();
    let core = &context.core;
    match core.get_contents() {
        Routed::Wayland(request) => {
            assert_eq!(request.source, PasteSource::Primary);
            assert!(matches!(request.mime, MimeType::Text));
        }
        _ => panic!("unexpected"),
    }
    match core.get_target_contents(TargetMimeType::Bitmap) {
        Routed::Wayland(request) => {
            assert!(matches!(request.mime, MimeType::Specific(s) if s == "image/png"))
        }
        _ => panic!("unexpected"),
    }
    match core.set_contents("text".to_string()) {
        Routed::Wayland(request) => {
            assert_eq!(request.destination, CopyDestination::Both);
            assert_eq!(request.sources.len(), 1);
            assert_eq!(request.sources[0].1, b"text");
        }
        _ => panic!("unexpected"),
    }
    match core.set_target_contents("x".into(), vec![1]) {
        Routed::Wayland(request) => {
            assert!(matches!(&request.sources[0].0, MimeType::Specific(s) if s == "x"))
        }
        _ => panic!("unexpected"),
    }
    match core.set_multiple_targets(vec![("a".into(), vec![1]), ("b".into(), vec![2])]) {
        Routed::Wayland(request) => assert_eq!(request.sources.len(), 2),
        _ => panic!("unexpected"),
    }
    assert!(matches!(core.list_targets(), Routed::Wayland(PasteSource::Primary)));
    assert!(matches!(core.clear(), Routed::Wayland(CopyDestination::Both)));
}

#[test]
fn linux_forwards_to_x11_where_it_was_chosen() {
    let context = LinuxContextOnDesktop::new().unwrap();
    let core = &context.core;
    let atoms = Server::new().connect().unwrap();
    match core.get_contents() {
        Routed::X11(request) => {
            assert_eq!(request.selection, atoms.clipboard);
            assert_eq!(request.target, atoms.utf8_string);
            assert_eq!(request.timeout, Timeout::Millis(1000));
        }
        _ => panic!("unexpected"),
    }
    match core.get_target_contents(TargetMimeType::Files) {
        Routed::X11(Step::Call(ReadRequest::Intern(lookup))) => {
            assert_eq!(lookup.name, "text/uri-list");
            assert!(lookup.only_if_exists);
        }
        _ => panic!("unexpected"),
    }
    match core.set_contents("text".to_string()) {
        Routed::X11(storing) => match storing.begin().1 {
            Step::Done(Ok(request)) => {
                assert_eq!(request.selection, atoms.clipboard);
                assert_eq!(request.entries, vec![(atoms.utf8_string, b"text".to_vec())]);
            }
            _ => panic!("unexpected"),
        },
        _ => panic!("unexpected"),
    }
    match core.set_target_contents("x".into(), vec![1]) {
        Routed::X11(storing) => match storing.begin().1 {
            Step::Call(lookup) => {
                assert_eq!(lookup.name, "x");
                assert!(!lookup.only_if_exists);
            }
            _ => panic!("unexpected"),
        },
        _ => panic!("unexpected"),
    }
    match core.set_multiple_targets(vec![(TargetMimeType::Text, vec![1]), ("b".into(), vec![2])]) {
        Routed::X11(storing) => {
            let (storing, step) = storing.begin();
            assert!(matches!(step, Step::Call(lookup) if lookup.name == "b"));
            match storing.after_intern(Ok(77)).1 {
                Step::Done(Ok(request)) => {
                    assert_eq!(request.entries, vec![(atoms.utf8_string, vec![1]), (77, vec![2])])
                }
                _ => panic!("unexpected"),
            }
        }
        _ => panic!("unexpected"),
    }
    match core.list_targets() {
        Routed::X11(request) => {
            assert_eq!(
                request,
                ListRequest { selection: atoms.clipboard, timeout: Timeout::Millis(100) }
            )
        }
        _ => panic!("unexpected"),
    }
    assert!(matches!(core.clear(), Routed::X11(selection) if selection == atoms.clipboard));
}

#[test]
fn linux_operations_work_on_both_desktops() {
    let poll_duration = Duration::from_secs(1);
    let desktops = [
        LinuxContextOnDesktop::on(Compositor::new(true), Server::new()).unwrap(),
        LinuxContextOnDesktop::on(Compositor::new(false), Server::new()).unwrap(),
        LinuxContextOnDesktop::new().unwrap(),
    ];
    for mut context in desktops {
        context.set_target_contents("jumbo".into(), b"one".to_vec()).unwrap();
        assert_eq!(context.get_target_contents("jumbo".into(), poll_duration).unwrap(), b"one");
        assert_eq!(names(context.list_targets().unwrap()), vec!["jumbo"]);
        context
            .set_multiple_targets(vec![("a".into(), b"1".to_vec()), ("b".into(), b"2".to_vec())])
            .unwrap();
        assert_eq!(context.get_target_contents("b".into(), poll_duration).unwrap(), b"2");
        assert!(context.get_target_contents("jumbo".into(), poll_duration).unwrap().is_empty());
        assert_eq!(
            context.wait_for_target_contents("a".into(), Duration::from_millis(50)).unwrap(),
            b"1"
        );
        context.clear().unwrap();
        assert!(context.list_targets().unwrap().is_empty());
        assert_eq!(context.get_contents().unwrap(), "");
    }
}

#[test]
fn x11_store_lookup_is_for_names_only() {
    let atoms = Atoms { primary: 1, clipboard: 2, property: 3, utf8_string: 5 };
    let context = X11ClipboardContext::<Clipboard>::new(Ok(atoms)).unwrap();
    assert!(context.store_lookup(&AtomSource::Known(5)).is_none());
    assert!(context.store_lookup(&AtomSource::Known(0)).is_none());
    let lookup = context.store_lookup(&AtomSource::Named("X-ClipSync".to_string())).unwrap();
    assert_eq!(lookup.name, "X-ClipSync");
    assert!(!lookup.only_if_exists);
    let format = context.get_target("text/html;charset=utf-8".into());
    let lookup = context.store_lookup(&format).unwrap();
    assert_eq!(lookup.name, "text/html;charset=utf-8");
    assert!(!lookup.only_if_exists);
    assert!(context.store_lookup(&context.get_target(TargetMimeType::Text)).is_none());
}
