use vstd::prelude::*;
use tokio_util::sync::CancellationToken;
use crate::cancel::{cancel_token, new_token, share_token, token_cancelled};
use crate::error::Error;

verus! {

/// Severity of a log line, from the most severe to the least.
#[derive(Clone, Copy, Debug, PartialEq, Eq, Structural)]
pub enum LogLevel {
    Error,
    Warn,
    Info,
    Debug,
    Trace,
}

impl LogLevel {
    /// The rank of a level; a more severe level has a higher rank.
    pub open spec fn severity(self) -> int {
        match self {
            LogLevel::Error => 4,
            LogLevel::Warn => 3,
            LogLevel::Info => 2,
            LogLevel::Debug => 1,
            LogLevel::Trace => 0,
        }
    }

    fn rank(self) -> (rank: u8)
        ensures
            rank == self.severity(),
    {
        match self {
            LogLevel::Error => 4,
            LogLevel::Warn => 3,
            LogLevel::Info => 2,
            LogLevel::Debug => 1,
            LogLevel::Trace => 0,
        }
    }

    /// Whether this level is as severe as `least`, or more.
    pub fn at_least(self, least: LogLevel) -> (enough: bool)
        ensures
            enough == (self.severity() >= least.severity()),
    {
        self.rank() >= least.rank()
    }
}

/// One line of the daemon's log.
#[derive(Debug)]
pub struct LogLine {
    /// When the line was written, in microseconds since the Unix epoch.
    pub timestamp: i64,
    pub level: LogLevel,
    /// The interface that the line speaks of, where it speaks of one.
    pub interface: Option<String>,
    pub message: String,
}

/// Whether a watcher of `interface_name` passes a line on: the line speaks of
/// that interface, is severe enough, and is not older than the watch.
pub open spec fn forwarded(
    line: LogLine,
    interface_name: Seq<char>,
    least: LogLevel,
    from: Option<i64>,
) -> bool {
    &&& line.interface matches Some(tag) && tag@ == interface_name
    &&& line.level.severity() >= least.severity()
    &&& from matches Some(start) ==> line.timestamp >= start
}

/// Where a watcher stands.
#[derive(Clone, Copy, Debug, PartialEq, Eq, Structural)]
pub enum WatcherState {
    /// Made, and not yet run.
    Idle,
    Running,
    /// Stopped on request. This is no error.
    Cancelled,
    /// Stopped because the log could not be read.
    Errored,
}

/// What an attempt to read the log gave.
#[derive(Debug)]
pub enum ReadEvent {
    Line(LogLine),
    /// Nothing new was there.
    Quiet,
    /// The log cannot be read any more.
    Failed,
}

/// What a watcher does with what was read.
#[derive(Debug)]
pub enum WatcherAction {
    /// Publish the line on the watcher's topic.
    Emit(LogLine),
    /// Nothing to publish; read on.
    Skip,
    /// End the task.
    Stop,
    /// End the task and report the failure to whoever spawned it.
    Fail,
}

/// The state of a watcher after one iteration, and what it does in it. The
/// request to stop is looked at first; a watcher that has stopped stays so
/// and publishes nothing.
pub open spec fn watcher_step(
    state: WatcherState,
    cancelled: bool,
    event: ReadEvent,
    interface_name: Seq<char>,
    least: LogLevel,
    from: Option<i64>,
) -> (WatcherState, WatcherAction) {
    if state is Cancelled || state is Errored {
        (state, WatcherAction::Stop)
    } else if cancelled {
        (WatcherState::Cancelled, WatcherAction::Stop)
    } else {
        match event {
            ReadEvent::Failed => (WatcherState::Errored, WatcherAction::Fail),
            ReadEvent::Quiet => (WatcherState::Running, WatcherAction::Skip),
            ReadEvent::Line(line) => if forwarded(line, interface_name, least, from) {
                (WatcherState::Running, WatcherAction::Emit(line))
            } else {
                (WatcherState::Running, WatcherAction::Skip)
            },
        }
    }
}

/// What a watcher does over several iterations, one for each pair of a
/// cancellation flag and an event.
pub open spec fn watcher_actions(
    state: WatcherState,
    inputs: Seq<(bool, ReadEvent)>,
    interface_name: Seq<char>,
    least: LogLevel,
    from: Option<i64>,
) -> Seq<WatcherAction>
    decreases inputs.len(),
{
    if inputs.len() == 0 {
        Seq::empty()
    } else {
        let (next, action) = watcher_step(
            state,
            inputs[0].0,
            inputs[0].1,
            interface_name,
            least,
            from,
        );
        seq![action] + watcher_actions(next, inputs.drop_first(), interface_name, least, from)
    }
}

/// Once a watcher has seen its cancellation, it publishes no further line,
/// whatever is read and whether or not the token still says so.
pub proof fn lemma_silent_after_cancel(
    inputs: Seq<(bool, ReadEvent)>,
    interface_name: Seq<char>,
    least: LogLevel,
    from: Option<i64>,
)
    ensures
        forall|i: int|
            0 <= i < inputs.len() ==> #[trigger] watcher_actions(
                WatcherState::Cancelled,
                inputs,
                interface_name,
                least,
                from,
            )[i] == WatcherAction::Stop,
        watcher_actions(WatcherState::Cancelled, inputs, interface_name, least, from).len()
            == inputs.len(),
    decreases inputs.len(),
{
    if inputs.len() > 0 {
        lemma_silent_after_cancel(inputs.drop_first(), interface_name, least, from);
        let rest = watcher_actions(
            WatcherState::Cancelled,
            inputs.drop_first(),
            interface_name,
            least,
            from,
        );
        let all = watcher_actions(WatcherState::Cancelled, inputs, interface_name, least, from);
        assert(all == seq![WatcherAction::Stop] + rest);
        assert forall|i: int| 0 <= i < inputs.len() implies #[trigger] all[i]
            == WatcherAction::Stop by {
            if i > 0 {
                assert(all[i] == rest[i - 1]);
            }
        }
    }
}

/// The task that tails the daemon's log for one interface.
pub struct ServiceLogWatcher {
    token: CancellationToken,
    topic: String,
    interface_name: String,
    least: LogLevel,
    from: Option<i64>,
    state: WatcherState,
}

impl ServiceLogWatcher {
    pub closed spec fn state(&self) -> WatcherState {
        self.state
    }

    pub closed spec fn token(&self) -> CancellationToken {
        self.token
    }

    pub closed spec fn topic(&self) -> Seq<char> {
        self.topic@
    }

    pub closed spec fn interface_name(&self) -> Seq<char> {
        self.interface_name@
    }

    pub closed spec fn least(&self) -> LogLevel {
        self.least
    }

    pub closed spec fn from(&self) -> Option<i64> {
        self.from
    }

    /// Whether two watchers differ in their state at most.
    pub open spec fn same_watch(&self, other: &Self) -> bool {
        &&& self.token() == other.token()
        &&& self.topic() == other.topic()
        &&& self.interface_name() == other.interface_name()
        &&& self.least() == other.least()
        &&& self.from() == other.from()
    }

    /// A watcher that has not run yet.
    pub fn new(
        token: CancellationToken,
        topic: String,
        interface_name: String,
        least: LogLevel,
        from: Option<i64>,
    ) -> (watcher: Self)
        ensures
            watcher.state() == WatcherState::Idle,
            watcher.token() == token,
            watcher.topic() == topic@,
            watcher.interface_name() == interface_name@,
            watcher.least() == least,
            watcher.from() == from,
    {
        ServiceLogWatcher { token, topic, interface_name, least, from, state: WatcherState::Idle }
    }

    /// Where the watcher stands.
    pub fn status(&self) -> (state: WatcherState)
        ensures
            state == self.state(),
    {
        self.state
    }

    /// The topic on which the watcher's lines are published.
    pub fn event_topic(&self) -> (topic: &String)
        ensures
            topic@ == self.topic(),
    {
        &self.topic
    }

    /// Whether the watcher passes a line on.
    pub fn forwards(&self, line: &LogLine) -> (passed: bool)
        ensures
            passed == forwarded(*line, self.interface_name(), self.least(), self.from()),
    {
        let tagged = match &line.interface {
            Some(tag) => *tag == self.interface_name,
            None => false,
        };
        let recent = match self.from {
            Some(start) => line.timestamp >= start,
            None => true,
        };
        tagged && line.level.at_least(self.least) && recent
    }

    /// One iteration, given whether cancellation was requested and what the
    /// read gave.
    pub fn advance(&mut self, cancelled: bool, event: ReadEvent) -> (action: WatcherAction)
        ensures
            final(self).same_watch(old(self)),
            (final(self).state(), action) == watcher_step(
                old(self).state(),
                cancelled,
                event,
                old(self).interface_name(),
                old(self).least(),
                old(self).from(),
            ),
    {
        match self.state {
            WatcherState::Cancelled => {
                return WatcherAction::Stop;
            },
            WatcherState::Errored => {
                return WatcherAction::Stop;
            },
            _ => {},
        }
        if cancelled {
            self.state = WatcherState::Cancelled;
            return WatcherAction::Stop;
        }
        match event {
            ReadEvent::Failed => {
                self.state = WatcherState::Errored;
                WatcherAction::Fail
            },
            ReadEvent::Quiet => {
                self.state = WatcherState::Running;
                WatcherAction::Skip
            },
            ReadEvent::Line(line) => {
                self.state = WatcherState::Running;
                if self.forwards(&line) {
                    WatcherAction::Emit(line)
                } else {
                    WatcherAction::Skip
                }
            },
        }
    }

    /// One iteration: asks the token whether cancellation was requested, then
    /// deals with what the read gave. A watcher that has stopped stays so and
    /// publishes nothing.
    pub fn step(&mut self, event: ReadEvent) -> (action: WatcherAction)
        ensures
            final(self).same_watch(old(self)),
            exists|cancelled: bool|
                (final(self).state(), action) == #[trigger] watcher_step(
                    old(self).state(),
                    cancelled,
                    event,
                    old(self).interface_name(),
                    old(self).least(),
                    old(self).from(),
                ),
            old(self).state() is Cancelled || old(self).state() is Errored ==> action
                == WatcherAction::Stop && final(self).state() == old(self).state(),
    {
        let cancelled = token_cancelled(&self.token);
        let action = self.advance(cancelled, event);
        assert((self.state(), action) == watcher_step(
            old(self).state(),
            cancelled,
            event,
            old(self).interface_name(),
            old(self).least(),
            old(self).from(),
        ));
        action
    }
}

/// The token of one interface's watcher.
struct Watch {
    interface_name: String,
    token: CancellationToken,
}

/// The log watchers of this process, at most one per interface.
pub struct LogWatcherRegistry {
    watches: Vec<Watch>,
}

/// What the registration of a watcher hands out: the token that the new
/// watcher has to watch, and the token of the watcher that it replaced, which
/// has been cancelled.
pub struct Registered {
    pub token: CancellationToken,
    pub replaced: Option<CancellationToken>,
}

spec fn watched(watches: Seq<Watch>, name: Seq<char>) -> bool {
    exists|i: int| 0 <= i < watches.len() && watches[i].interface_name@ == name
}

spec fn place_of(watches: Seq<Watch>, name: Seq<char>) -> int {
    choose|i: int| 0 <= i < watches.len() && watches[i].interface_name@ == name
}

spec fn one_each(watches: Seq<Watch>) -> bool {
    forall|i: int, j: int|
        0 <= i < j < watches.len() ==> watches[i].interface_name@ != watches[j].interface_name@
}

spec fn tokens_of(watches: Seq<Watch>) -> Map<Seq<char>, CancellationToken> {
    Map::new(
        |name: Seq<char>| watched(watches, name),
        |name: Seq<char>| watches[place_of(watches, name)].token,
    )
}

proof fn lemma_place(watches: Seq<Watch>, i: int)
    requires
        one_each(watches),
        0 <= i < watches.len(),
    ensures
        watched(watches, watches[i].interface_name@),
        place_of(watches, watches[i].interface_name@) == i,
{
}

proof fn lemma_add(watches: Seq<Watch>, watch: Watch)
    requires
        one_each(watches),
        !watched(watches, watch.interface_name@),
    ensures
        one_each(watches.push(watch)),
        tokens_of(watches.push(watch)) == tokens_of(watches).insert(
            watch.interface_name@,
            watch.token,
        ),
{
    let more = watches.push(watch);
    let name = watch.interface_name@;
    assert(one_each(more)) by {
        assert forall|i: int, j: int| 0 <= i < j < more.len() implies more[i].interface_name@
            != more[j].interface_name@ by {
            if j == watches.len() {
                assert(watches[i].interface_name@ != name);
            }
        }
    }
    assert forall|other: Seq<char>| watched(more, other) <==> (other == name || watched(
        watches,
        other,
    )) by {
        if watched(more, other) {
            let i = place_of(more, other);
            if i < watches.len() {
                assert(watches[i].interface_name@ == other);
            }
        }
        if other == name {
            assert(more[watches.len() as int].interface_name@ == name);
        }
        if watched(watches, other) {
            let i = place_of(watches, other);
            assert(more[i].interface_name@ == other);
        }
    }
    assert forall|other: Seq<char>| watched(more, other) implies more[place_of(more, other)] == (
    if other == name {
        watch
    } else {
        watches[place_of(watches, other)]
    }) by {
        if other == name {
            lemma_place(more, watches.len() as int);
        } else {
            let i = place_of(watches, other);
            assert(more[i] == watches[i]);
            lemma_place(more, i);
        }
    }
    assert(tokens_of(more) =~= tokens_of(watches).insert(name, watch.token));
}

proof fn lemma_replace(watches: Seq<Watch>, at: int, watch: Watch)
    requires
        one_each(watches),
        0 <= at < watches.len(),
        watches[at].interface_name@ == watch.interface_name@,
    ensures
        one_each(watches.update(at, watch)),
        tokens_of(watches.update(at, watch)) == tokens_of(watches).insert(
            watch.interface_name@,
            watch.token,
        ),
{
    let after = watches.update(at, watch);
    let name = watch.interface_name@;
    assert forall|i: int| 0 <= i < after.len() implies (#[trigger] after[i]).interface_name@
        == watches[i].interface_name@ by {}
    assert(one_each(after)) by {
        assert forall|i: int, j: int| 0 <= i < j < after.len() implies after[i].interface_name@
            != after[j].interface_name@ by {
            assert(watches[i].interface_name@ != watches[j].interface_name@);
        }
    }
    assert forall|other: Seq<char>| watched(after, other) <==> watched(watches, other) by {
        if watched(after, other) {
            let i = place_of(after, other);
            assert(watches[i].interface_name@ == other);
        }
        if watched(watches, other) {
            let i = place_of(watches, other);
            assert(after[i].interface_name@ == other);
        }
    }
    lemma_place(watches, at);
    assert forall|other: Seq<char>| watched(after, other) implies after[place_of(after, other)] == (
    if other == name {
        watch
    } else {
        watches[place_of(watches, other)]
    }) by {
        let i = place_of(watches, other);
        assert(after[i].interface_name@ == other);
        lemma_place(after, i);
        if other == name {
            lemma_place(after, at);
        }
    }
    assert(tokens_of(after) =~= tokens_of(watches).insert(name, watch.token));
}

proof fn lemma_drop(watches: Seq<Watch>, at: int)
    requires
        one_each(watches),
        0 <= at < watches.len(),
    ensures
        one_each(watches.remove(at)),
        tokens_of(watches.remove(at)) == tokens_of(watches).remove(watches[at].interface_name@),
{
    let fewer = watches.remove(at);
    let name = watches[at].interface_name@;
    let back = |i: int| if i < at { i } else { i + 1 };
    assert forall|i: int| 0 <= i < fewer.len() implies fewer[i] == watches[back(i)] by {}
    assert(one_each(fewer)) by {
        assert forall|i: int, j: int| 0 <= i < j < fewer.len() implies fewer[i].interface_name@
            != fewer[j].interface_name@ by {
            assert(fewer[i] == watches[back(i)]);
            assert(fewer[j] == watches[back(j)]);
        }
    }
    assert forall|other: Seq<char>| watched(fewer, other) <==> (other != name && watched(
        watches,
        other,
    )) by {
        if watched(fewer, other) {
            let i = place_of(fewer, other);
            assert(fewer[i] == watches[back(i)]);
            if other == name {
                lemma_place(watches, at);
                lemma_place(watches, back(i));
            }
        }
        if other != name && watched(watches, other) {
            let i = place_of(watches, other);
            if i < at {
                assert(fewer[i] == watches[back(i)]);
            } else {
                assert(fewer[i - 1] == watches[back(i - 1)]);
            }
        }
    }
    assert forall|other: Seq<char>| watched(fewer, other) implies fewer[place_of(fewer, other)]
        == watches[place_of(watches, other)] by {
        let i = place_of(fewer, other);
        assert(fewer[i] == watches[back(i)]);
        lemma_place(watches, back(i));
    }
    assert(tokens_of(fewer) =~= tokens_of(watches).remove(name));
}

impl View for LogWatcherRegistry {
    type V = Map<Seq<char>, CancellationToken>;

    /// The tokens of the registered watchers by interface name.
    closed spec fn view(&self) -> Map<Seq<char>, CancellationToken> {
        tokens_of(self.watches@)
    }
}

impl LogWatcherRegistry {
    /// No interface has two watchers.
    #[verifier::type_invariant]
    spec fn wf(self) -> bool {
        one_each(self.watches@)
    }

    /// A registry without watchers.
    pub fn new() -> (registry: Self)
        ensures
            registry@ == Map::<Seq<char>, CancellationToken>::empty(),
    {
        let registry = LogWatcherRegistry { watches: Vec::new() };
        assert(registry@ =~= Map::<Seq<char>, CancellationToken>::empty());
        registry
    }

    fn position(&self, interface_name: &String) -> (found: Option<usize>)
        ensures
            found is Some <==> watched(self.watches@, interface_name@),
            found matches Some(i) ==> i == place_of(self.watches@, interface_name@) && i
                < self.watches@.len(),
    {
        proof {
            use_type_invariant(self);
        }
        let mut i: usize = 0;
        while i < self.watches.len()
            invariant
                one_each(self.watches@),
                i <= self.watches@.len(),
                forall|k: int| 0 <= k < i ==> self.watches@[k].interface_name@ != interface_name@,
            decreases self.watches@.len() - i,
        {
            if self.watches[i].interface_name == *interface_name {
                proof {
                    lemma_place(self.watches@, i as int);
                }
                return Some(i);
            }
            i += 1;
        }
        None
    }

    /// Whether an interface has a registered watcher.
    pub fn is_watched(&self, interface_name: &String) -> (watched: bool)
        ensures
            watched == self@.contains_key(interface_name@),
    {
        self.position(interface_name).is_some()
    }

    /// Registers a new watcher for an interface. The watcher that was
    /// registered for it before, if there was one, is cancelled first and
    /// leaves the registry.
    pub fn start(&mut self, interface_name: String) -> (registered: Registered)
        ensures
            final(self)@ == old(self)@.insert(interface_name@, registered.token),
            registered.replaced == old(self)@.get(interface_name@),
    {
        let token = new_token();
        let handle = share_token(&token);
        match self.position(&interface_name) {
            Some(at) => {
                let previous = share_token(&self.watches[at].token);
                cancel_token(&previous);
                let watch = Watch { interface_name, token };
                proof {
                    use_type_invariant(&*self);
                    lemma_replace(self.watches@, at as int, watch);
                }
                // The watches change outside the registry, which so never
                // holds two watchers of one interface.
                let mut watches: Vec<Watch> = Vec::new();
                std::mem::swap(&mut self.watches, &mut watches);
                watches.set(at, watch);
                self.watches = watches;
                Registered { token: handle, replaced: Some(previous) }
            },
            None => {
                let watch = Watch { interface_name, token };
                proof {
                    use_type_invariant(&*self);
                    lemma_add(self.watches@, watch);
                }
                let mut watches: Vec<Watch> = Vec::new();
                std::mem::swap(&mut self.watches, &mut watches);
                watches.push(watch);
                self.watches = watches;
                Registered { token: handle, replaced: None }
            },
        }
    }

    /// Cancels the watcher of an interface and takes it out of the registry;
    /// `NotFound` where the interface has none.
    pub fn stop(&mut self, interface_name: &String) -> (stopped: Result<CancellationToken, Error>)
        ensures
            stopped is Ok <==> old(self)@.contains_key(interface_name@),
            stopped matches Err(error) ==> error == Error::NotFound && *final(self) == *old(self),
            stopped matches Ok(token) ==> token == old(self)@[interface_name@] && final(self)@
                == old(self)@.remove(interface_name@),
    {
        match self.position(interface_name) {
            Some(at) => {
                proof {
                    use_type_invariant(&*self);
                    lemma_drop(self.watches@, at as int);
                }
                let mut watches: Vec<Watch> = Vec::new();
                std::mem::swap(&mut self.watches, &mut watches);
                let watch = watches.remove(at);
                self.watches = watches;
                cancel_token(&watch.token);
                Ok(watch.token)
            },
            None => Err(Error::NotFound),
        }
    }
}

} // verus!
