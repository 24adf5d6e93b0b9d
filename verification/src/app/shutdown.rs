use vstd::prelude::*;

verus! {

/// A part of the running agent that a shutdown stops.
#[derive(Debug, Clone, Copy, PartialEq, Eq, Structural)]
pub enum Component {
    TokenRefreshWorker,
    PollerWorker,
    MqttWorker,
    SocketServer,
    ScanWorker,
    ScanBridgeWorker,
    Scanner,
    AppState,
}

/// The position of a component in the shutdown order. The app state goes last, since
/// the workers and the server rely on it; the scan driver and bridge workers go
/// before the scanner actor they send commands into.
pub open spec fn rank(c: Component) -> int {
    match c {
        Component::TokenRefreshWorker => 0,
        Component::PollerWorker => 1,
        Component::MqttWorker => 2,
        Component::SocketServer => 3,
        Component::ScanWorker => 4,
        Component::ScanBridgeWorker => 5,
        Component::Scanner => 6,
        Component::AppState => 7,
    }
}

fn rank_of(c: Component) -> (r: usize)
    ensures
        r == rank(c),
{
    match c {
        Component::TokenRefreshWorker => 0,
        Component::PollerWorker => 1,
        Component::MqttWorker => 2,
        Component::SocketServer => 3,
        Component::ScanWorker => 4,
        Component::ScanBridgeWorker => 5,
        Component::Scanner => 6,
        Component::AppState => 7,
    }
}

fn component_at(i: usize) -> (r: Component)
    requires
        i < 8,
    ensures
        rank(r) == i,
{
    match i {
        0 => Component::TokenRefreshWorker,
        1 => Component::PollerWorker,
        2 => Component::MqttWorker,
        3 => Component::SocketServer,
        4 => Component::ScanWorker,
        5 => Component::ScanBridgeWorker,
        6 => Component::Scanner,
        _ => Component::AppState,
    }
}

/// A component was handed to the shutdown manager twice.
#[derive(Debug)]
pub struct ShutdownMngrDuplicateArgErr {
    pub arg_name: String,
}

/// Which components a shutdown has to stop, each registered at most once.
pub struct ShutdownRegistry {
    token_refresh_worker: bool,
    poller_worker: bool,
    mqtt_worker: bool,
    socket_server: bool,
    scan_worker: bool,
    scan_bridge_worker: bool,
    scanner: bool,
    app_state: bool,
}

impl ShutdownRegistry {
    pub closed spec fn holds(&self, c: Component) -> bool {
        match c {
            Component::TokenRefreshWorker => self.token_refresh_worker,
            Component::PollerWorker => self.poller_worker,
            Component::MqttWorker => self.mqtt_worker,
            Component::SocketServer => self.socket_server,
            Component::ScanWorker => self.scan_worker,
            Component::ScanBridgeWorker => self.scan_bridge_worker,
            Component::Scanner => self.scanner,
            Component::AppState => self.app_state,
        }
    }
}

impl View for ShutdownRegistry {
    type V = Set<Component>;

    closed spec fn view(&self) -> Set<Component> {
        Set::new(|c: Component| self.holds(c))
    }
}

impl ShutdownRegistry {
    /// Nothing registered.
    pub fn new() -> (r: Self)
        ensures
            r@ == Set::<Component>::empty(),
    {
        let r = ShutdownRegistry {
            token_refresh_worker: false,
            poller_worker: false,
            mqtt_worker: false,
            socket_server: false,
            scan_worker: false,
            scan_bridge_worker: false,
            scanner: false,
            app_state: false,
        };
        assert(r@ =~= Set::<Component>::empty());
        r
    }

    pub fn is_registered(&self, c: Component) -> (r: bool)
        ensures
            r == self@.contains(c),
    {
        match c {
            Component::TokenRefreshWorker => self.token_refresh_worker,
            Component::PollerWorker => self.poller_worker,
            Component::MqttWorker => self.mqtt_worker,
            Component::SocketServer => self.socket_server,
            Component::ScanWorker => self.scan_worker,
            Component::ScanBridgeWorker => self.scan_bridge_worker,
            Component::Scanner => self.scanner,
            Component::AppState => self.app_state,
        }
    }

    /// Register `c`; a second registration is refused, naming `arg_name`.
    pub fn register(&mut self, c: Component, arg_name: &str) -> (r: Result<(), ShutdownMngrDuplicateArgErr>)
        ensures
            old(self)@.contains(c) ==> (r matches Err(e) && e.arg_name@ == arg_name@ && final(self)@
                == old(self)@),
            !old(self)@.contains(c) ==> (r is Ok && final(self)@ == old(self)@.insert(c)),
    {
        if self.is_registered(c) {
            return Err(ShutdownMngrDuplicateArgErr { arg_name: arg_name.to_owned() });
        }
        let ghost before = self@;
        match c {
            Component::TokenRefreshWorker => self.token_refresh_worker = true,
            Component::PollerWorker => self.poller_worker = true,
            Component::MqttWorker => self.mqtt_worker = true,
            Component::SocketServer => self.socket_server = true,
            Component::ScanWorker => self.scan_worker = true,
            Component::ScanBridgeWorker => self.scan_bridge_worker = true,
            Component::Scanner => self.scanner = true,
            Component::AppState => self.app_state = true,
        }
        assert(self@ =~= before.insert(c));
        Ok(())
    }

    /// The registered components in the order a shutdown stops them.
    pub fn plan(&self) -> (r: Vec<Component>)
        ensures
            forall|c: Component| self@.contains(c) <==> r@.contains(c),
            forall|i: int, j: int| 0 <= i < j < r@.len() ==> rank(#[trigger] r@[i]) < rank(#[trigger] r@[j]),
    {
        let mut out: Vec<Component> = Vec::new();
        let mut i: usize = 0;
        while i < 8
            invariant
                i <= 8,
                forall|k: int| 0 <= k < out@.len() ==> rank(#[trigger] out@[k]) < i,
                forall|k: int, l: int| 0 <= k < l < out@.len() ==> rank(#[trigger] out@[k]) < rank(#[trigger] out@[l]),
                forall|c: Component| rank(c) < i ==> (self@.contains(c) <==> out@.contains(c)),
                forall|c: Component| rank(c) >= i ==> !out@.contains(c),
            decreases 8 - i,
        {
            let c = component_at(i);
            if self.is_registered(c) {
                let ghost before = out@;
                out.push(c);
                proof {
                    assert forall|x: Component| rank(x) < i + 1 implies (self@.contains(x) <==> out@.contains(x)) by {
                        if x == c {
                            assert(out@[out@.len() - 1] == c);
                        } else {
                            if before.contains(x) {
                                let w = choose|w: int| 0 <= w < before.len() && before[w] == x;
                                assert(out@[w] == x);
                            }
                            if out@.contains(x) {
                                let w = choose|w: int| 0 <= w < out@.len() && out@[w] == x;
                                if w == before.len() {
                                    assert(rank(x) == i);
                                } else {
                                    assert(before[w] == x);
                                }
                            }
                        }
                    }
                    assert forall|x: Component| rank(x) >= i + 1 implies !out@.contains(x) by {
                        if out@.contains(x) {
                            let w = choose|w: int| 0 <= w < out@.len() && out@[w] == x;
                            if w < before.len() {
                                assert(before[w] == x);
                            }
                        }
                    }
                }
            } else {
                proof {
                    assert forall|x: Component| rank(x) < i + 1 implies (self@.contains(x) <==> out@.contains(x)) by {
                        if rank(x) == i {
                            assert(!out@.contains(x));
                        }
                    }
                }
            }
            i = i + 1;
        }
        proof {
            assert forall|c: Component| self@.contains(c) <==> out@.contains(c) by {
                assert(rank(c) < 8);
            }
        }
        out
    }
}

/// The stopping order puts the app state last and the scanner actor after the scan
/// driver and bridge workers that feed it: in any plan, a component that precedes
/// another in the stopping order comes first.
pub proof fn lemma_plan_order(plan: Seq<Component>, i: int, j: int)
    requires
        forall|a: int, b: int| 0 <= a < b < plan.len() ==> rank(#[trigger] plan[a]) < rank(#[trigger] plan[b]),
        0 <= i < plan.len(),
        0 <= j < plan.len(),
    ensures
        plan[j] == Component::AppState && i != j ==> i < j,
        plan[j] == Component::Scanner && (plan[i] == Component::ScanWorker || plan[i]
            == Component::ScanBridgeWorker) ==> i < j,
{
    if i > j {
        assert(rank(plan[j]) < rank(plan[i]));
    }
}

/// The parts of the app state, in the order its shutdown stops them: the uploader
/// first (it depends on nothing else), then the deleter it feeds, the scanner before
/// the syncer it uses, the syncer and event hub before the storage they use, and the
/// token manager last.
#[derive(Debug, Clone, Copy, PartialEq, Eq, Structural)]
pub enum AppPart {
    Uploader,
    Deleter,
    Scanner,
    Syncer,
    EventHub,
    Storage,
    TokenManager,
}

pub fn app_state_shutdown_order() -> (r: Vec<AppPart>)
    ensures
        r@ == seq![
            AppPart::Uploader,
            AppPart::Deleter,
            AppPart::Scanner,
            AppPart::Syncer,
            AppPart::EventHub,
            AppPart::Storage,
            AppPart::TokenManager,
        ],
{
    let r = vec![
        AppPart::Uploader,
        AppPart::Deleter,
        AppPart::Scanner,
        AppPart::Syncer,
        AppPart::EventHub,
        AppPart::Storage,
        AppPart::TokenManager,
    ];
    assert(r@ =~= seq![
        AppPart::Uploader,
        AppPart::Deleter,
        AppPart::Scanner,
        AppPart::Syncer,
        AppPart::EventHub,
        AppPart::Storage,
        AppPart::TokenManager,
    ]);
    r
}

/// A best-effort shutdown attempts every step and reports the first failure.
pub struct FirstErr<E> {
    pub first: Option<E>,
}

/// The first of the failures `errs`, after an earlier first failure `first`, if any.
pub open spec fn spec_first_of<E>(first: Option<E>, errs: Seq<E>) -> Option<E> {
    match first {
        Some(e) => Some(e),
        None => if errs.len() == 0 {
            None
        } else {
            Some(errs[0])
        },
    }
}

impl<E> FirstErr<E> {
    pub fn new() -> (r: Self)
        ensures
            r.first is None,
    {
        FirstErr { first: None }
    }

    /// Record a failure; only the first one is kept.
    pub fn record(&mut self, e: E)
        ensures
            final(self).first == spec_first_of(old(self).first, seq![e]),
    {
        if self.first.is_none() {
            self.first = Some(e);
        }
    }

    /// Ok when nothing failed, else the first failure.
    pub fn into_result(self) -> (r: Result<(), E>)
        ensures
            match self.first {
                Some(e) => r == Err::<(), E>(e),
                None => r == Ok::<(), E>(()),
            },
    {
        match self.first {
            Some(e) => Err(e),
            None => Ok(()),
        }
    }
}

/// Recording failures one after another keeps the first of them all.
pub proof fn lemma_first_error_wins<E>(first: Option<E>, errs: Seq<E>, e: E)
    ensures
        spec_first_of(spec_first_of(first, errs), seq![e]) == spec_first_of(first, errs.push(e)),
{
    if errs.len() > 0 {
        assert(errs.push(e)[0] == errs[0]);
    }
}

} // verus!
