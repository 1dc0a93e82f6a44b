//! Finding the instrument: which MIDI input port to connect to, and how long to
//! wait for one.
use crate::text;
use vstd::prelude::*;

verus! {

/// How long to wait between two looks at the list of ports, in milliseconds.
pub const PORT_POLL_INTERVAL_MILLIS: u128 = 250;

/// A failure connecting to, or reading from, a MIDI input device.
#[derive(Debug, Clone, PartialEq, Eq)]
pub enum MidiError {
    /// The platform's MIDI backend could not be initialised at all.
    BackendInit(String),
    /// The backend started, but it can see no input port at all.
    NoPortsAvailable,
    /// Input ports exist, but no name contains the requested filter.
    NoMatchingPort {
        /// The filter that was requested.
        filter: String,
        /// Every port name the backend could see at the time.
        available: Vec<String>,
    },
    /// A port was found but its name could not be read.
    PortName(String),
    /// The port was found and named, but the connection itself failed.
    Connect(String),
}

/// `text` quoted the way a programmer would read it.
pub uninterp spec fn quoted(text: Seq<char>) -> Seq<char>;

/// Quotes `text` with the debug format of `str`, through `format!`.
///
/// The escapes that format chooses are left to it: the result is named, and is
/// the same for the same text.
#[verifier::external_body]
fn quote(text: &str) -> (result: String)
    ensures
        result@ == quoted(text@),
{
    format!("{text:?}")
}

/// `names`, quoted, with a comma and a space between them.
pub open spec fn quoted_list(names: Seq<String>) -> Seq<char>
    decreases names.len(),
{
    if names.len() == 0 {
        Seq::empty()
    } else if names.len() == 1 {
        quoted(names[0]@)
    } else {
        quoted_list(names.drop_last()) + ", "@ + quoted(names.last()@)
    }
}

/// Writes `names`, quoted, at the end of `message`.
fn append_list(message: &mut String, names: &Vec<String>)
    ensures
        final(message)@ == old(message)@ + quoted_list(names@),
{
    let mut index: usize = 0;
    assert(names@.take(0) =~= Seq::<String>::empty());
    assert(message@ =~= old(message)@ + quoted_list(names@.take(0)));
    while index < names.len()
        invariant
            index <= names@.len(),
            message@ == old(message)@ + quoted_list(names@.take(index as int)),
        decreases names@.len() - index,
    {
        if index > 0 {
            message.append(", ");
        }
        let name = quote(names[index].as_str());
        message.append(name.as_str());
        proof {
            let taken = names@.take(index + 1);
            assert(taken.drop_last() =~= names@.take(index as int));
            assert(taken.last() == names@[index as int]);
            assert(message@ =~= old(message)@ + quoted_list(taken));
        }
        index = index + 1;
    }
    assert(names@.take(index as int) =~= names@);
}

impl MidiError {
    /// Waiting can fix it: the requested port is not there yet.
    pub open spec fn absent(self) -> bool {
        self is NoPortsAvailable || self is NoMatchingPort
    }

    /// Whether this failure only means that the requested port is not there
    /// yet: the one class of failure that waiting can fix.
    pub fn is_port_absent(&self) -> (result: bool)
        ensures
            result == self.absent(),
    {
        match self {
            MidiError::NoPortsAvailable => true,
            MidiError::NoMatchingPort { .. } => true,
            _ => false,
        }
    }

    /// The words [`MidiError::message`] puts the error in.
    pub open spec fn words(self) -> Seq<char> {
        match self {
            MidiError::BackendInit(cause) => "could not initialise the MIDI backend: "@ + cause@,
            MidiError::NoPortsAvailable =>
                "no MIDI input port exists; check that the instrument is powered on, that its cable is connected, and that its USB port is set to send MIDI rather than audio only"@,
            MidiError::NoMatchingPort { filter, available } =>
                "no MIDI input port name contains "@ + quoted(filter@) + "; available ports: ["@
                + quoted_list(available@) + "]"@,
            MidiError::PortName(cause) => "could not read the name of a MIDI input port: "@
                + cause@,
            MidiError::Connect(cause) => "could not connect to the MIDI input port: "@ + cause@,
        }
    }

    /// The error in words.
    pub fn message(&self) -> (message: String)
        ensures
            message@ == self.words(),
    {
        match self {
            MidiError::BackendInit(cause) => {
                let mut message = String::from_str("could not initialise the MIDI backend: ");
                message.append(cause.as_str());
                message
            },
            MidiError::NoPortsAvailable => String::from_str(
                "no MIDI input port exists; check that the instrument is powered on, that its cable is connected, and that its USB port is set to send MIDI rather than audio only",
            ),
            MidiError::NoMatchingPort { filter, available } => {
                let mut message = String::from_str("no MIDI input port name contains ");
                message.append(quote(filter.as_str()).as_str());
                message.append("; available ports: [");
                append_list(&mut message, available);
                message.append("]");
                message
            },
            MidiError::PortName(cause) => {
                let mut message = String::from_str("could not read the name of a MIDI input port: ");
                message.append(cause.as_str());
                message
            },
            MidiError::Connect(cause) => {
                let mut message = String::from_str("could not connect to the MIDI input port: ");
                message.append(cause.as_str());
                message
            },
        }
    }
}

/// `text` in lower case.
pub uninterp spec fn lower_case(text: Seq<char>) -> Seq<char>;

/// Turns `text` into lower case with `str::to_lowercase`.
///
/// The mapping is Unicode's, and depends on nothing but the text; which
/// characters it gives is left to the standard library, and only named here.
#[verifier::external_body]
fn to_lower_case(text: &str) -> (lower: String)
    ensures
        lower@ == lower_case(text@),
{
    text.to_lowercase()
}

/// A port name is chosen by `filter`: it contains the filter, whatever the case
/// of their letters. No filter chooses every port.
pub open spec fn chosen(port_name: Seq<char>, filter: Option<&str>) -> bool {
    match filter {
        Some(filter) => text::contains(lower_case(port_name), lower_case(filter@)),
        None => true,
    }
}

/// Whether a port's name is chosen by `filter`.
pub fn matches_filter(port_name: &str, filter: Option<&str>) -> (result: bool)
    ensures
        result == chosen(port_name@, filter),
{
    match filter {
        Some(filter) => {
            let outer = text::characters(to_lower_case(port_name).as_str());
            let inner = text::characters(to_lower_case(filter).as_str());
            text::is_inside(&outer, &inner)
        },
        None => true,
    }
}

/// Which of `port_names` to connect to: the first that `filter` chooses, and the
/// first of all without one.
///
/// An empty list is an absent instrument, filter or no filter. A filter that
/// chooses nothing is reported with the names that were there.
pub fn select_index(port_names: &Vec<String>, filter: Option<&str>) -> (result: Result<
    usize,
    MidiError,
>)
    ensures
        match result {
            Ok(index) => {
                &&& index < port_names@.len()
                &&& chosen(port_names@[index as int]@, filter)
                &&& forall|i: int|
                    0 <= i < index ==> !chosen(#[trigger] port_names@[i]@, filter)
            },
            Err(MidiError::NoPortsAvailable) => port_names@.len() == 0,
            Err(MidiError::NoMatchingPort { filter: wanted, available }) => {
                &&& port_names@.len() > 0
                &&& filter matches Some(text) && wanted@ == text@
                &&& available@ == port_names@
                &&& forall|i: int|
                    0 <= i < port_names@.len() ==> !chosen(#[trigger] port_names@[i]@, filter)
            },
            Err(_) => false,
        },
{
    if port_names.len() == 0 {
        return Err(MidiError::NoPortsAvailable);
    }
    let mut index: usize = 0;
    while index < port_names.len()
        invariant
            index <= port_names@.len(),
            port_names@.len() > 0,
            forall|i: int| 0 <= i < index ==> !chosen(#[trigger] port_names@[i]@, filter),
        decreases port_names@.len() - index,
    {
        if matches_filter(port_names[index].as_str(), filter) {
            return Ok(index);
        }
        index = index + 1;
    }
    match filter {
        Some(filter) => Err(
            MidiError::NoMatchingPort {
                filter: filter.to_owned(),
                available: copied(port_names),
            },
        ),
        None => {
            assert(!chosen(port_names@[0]@, filter));
            Err(MidiError::NoPortsAvailable)
        },
    }
}

/// A copy of a list of names.
fn copied(names: &Vec<String>) -> (copy: Vec<String>)
    ensures
        copy@ == names@,
{
    let mut copy: Vec<String> = Vec::with_capacity(names.len());
    let mut index: usize = 0;
    while index < names.len()
        invariant
            index <= names@.len(),
            copy@ == names@.take(index as int),
        decreases names@.len() - index,
    {
        copy.push(names[index].clone());
        index = index + 1;
        assert(copy@ =~= names@.take(index as int));
    }
    assert(names@.take(index as int) =~= names@);
    copy
}

/// How many looks at the list of ports fit in a wait of `timeout_millis`: one at
/// once and one more per interval, so that no wait at all still looks once. An
/// absurd wait saturates.
pub fn attempts_for(timeout_millis: u128) -> (attempts: u32)
    ensures
        attempts == if timeout_millis / PORT_POLL_INTERVAL_MILLIS + 1 > u32::MAX {
            u32::MAX as int
        } else {
            timeout_millis / PORT_POLL_INTERVAL_MILLIS + 1
        },
{
    let attempts: u128 = timeout_millis / PORT_POLL_INTERVAL_MILLIS + 1;
    if attempts > u32::MAX as u128 {
        u32::MAX
    } else {
        attempts as u32
    }
}

/// What comes after one attempt.
#[derive(Debug, PartialEq, Eq)]
pub enum Verdict<T> {
    /// The search is over.
    Finished(Result<T, MidiError>),
    /// The port is not there yet: wait, and try again.
    WaitAndRetry,
}

/// A search with `left` attempts left goes on after the next of them: it found
/// the port absent, and was not the last.
pub open spec fn goes_on(left: int, absent: bool) -> bool {
    absent && left > 1
}

/// A search for a port, attempt by attempt.
///
/// It ends with the first success, with the first failure that waiting cannot
/// fix, or with the last attempt; there is a wait between every two attempts and
/// none after the last.
#[derive(Debug, Clone, PartialEq, Eq)]
pub struct Retry {
    remaining: u32,
}

impl Retry {
    /// How many attempts are left.
    pub closed spec fn left(self) -> u32 {
        self.remaining
    }

    /// A search of at most `attempts` attempts. One of no attempts is over before it
    /// begins, and has found no port.
    pub fn new(attempts: u32) -> (search: Result<Self, MidiError>)
        ensures
            attempts == 0 ==> search == Err::<Self, MidiError>(MidiError::NoPortsAvailable),
            attempts > 0 ==> search is Ok && search->Ok_0.left() == attempts,
    {
        if attempts == 0 {
            return Err(MidiError::NoPortsAvailable);
        }
        Ok(Retry { remaining: attempts })
    }

    /// Takes the outcome of an attempt, and says what comes next.
    pub fn after_attempt<T>(&mut self, outcome: Result<T, MidiError>) -> (verdict: Verdict<T>)
        requires
            old(self).left() > 0,
        ensures
            final(self).left() == old(self).left() - 1,
            verdict is WaitAndRetry ==> final(self).left() > 0,
            verdict == if goes_on(
                old(self).left() as int,
                outcome is Err && outcome->Err_0.absent(),
            ) {
                Verdict::WaitAndRetry
            } else {
                Verdict::Finished(outcome)
            },
    {
        self.remaining = self.remaining - 1;
        match outcome {
            Ok(value) => Verdict::Finished(Ok(value)),
            Err(error) => {
                if error.is_port_absent() && self.remaining > 0 {
                    Verdict::WaitAndRetry
                } else {
                    Verdict::Finished(Err(error))
                }
            },
        }
    }
}

/// What a search of at most `attempts` attempts ends with, `outcomes` being what its
/// attempts come to: no port where it makes none, and otherwise the outcome after
/// which it does not go on.
pub open spec fn search_result<T>(attempts: nat, outcomes: Seq<Result<T, MidiError>>) -> Result<
    T,
    MidiError,
>
    decreases attempts,
{
    if attempts == 0 {
        Err(MidiError::NoPortsAvailable)
    } else if goes_on(attempts as int, finds_absent(outcomes[0])) {
        search_result((attempts - 1) as nat, outcomes.drop_first())
    } else {
        outcomes[0]
    }
}

/// An attempt that finds the port absent.
pub open spec fn finds_absent<T>(outcome: Result<T, MidiError>) -> bool {
    outcome is Err && outcome->Err_0.absent()
}

/// Which attempts find the port absent.
pub open spec fn absences<T>(outcomes: Seq<Result<T, MidiError>>) -> Seq<bool> {
    Seq::new(outcomes.len(), |i: int| finds_absent(outcomes[i]))
}

/// A search ends with exactly what its last attempt came to, and one that makes no
/// attempt with no port. It ends with an absent port only after all its attempts.
pub proof fn a_search_ends_with_its_last_outcome<T>(
    attempts: nat,
    outcomes: Seq<Result<T, MidiError>>,
)
    requires
        outcomes.len() >= attempts,
    ensures
        attempts == 0 ==> search_result(attempts, outcomes) == Err::<T, MidiError>(
            MidiError::NoPortsAvailable,
        ),
        attempts > 0 ==> 0 < tries(attempts, absences(outcomes)) && search_result(attempts, outcomes)
            == outcomes[tries(attempts, absences(outcomes)) - 1],
        finds_absent(search_result(attempts, outcomes)) ==> tries(attempts, absences(outcomes))
            == attempts,
    decreases attempts,
{
    if attempts > 0 {
        let absent = absences(outcomes);
        if goes_on(attempts as int, absent[0]) {
            let rest = outcomes.drop_first();
            a_search_ends_with_its_last_outcome((attempts - 1) as nat, rest);
            assert(absences(rest) =~= absent.drop_first());
            let made = tries((attempts - 1) as nat, absences(rest));
            waits_lie_between_tries((attempts - 1) as nat, absences(rest));
            assert(rest[made - 1] == outcomes[made as int]);
        }
    }
}

/// How many attempts a search of at most `attempts` makes, when `absent[i]` says
/// whether attempt `i` finds the port absent.
pub open spec fn tries(attempts: nat, absent: Seq<bool>) -> nat
    decreases attempts,
{
    if attempts == 0 {
        0
    } else if absent.len() > 0 && goes_on(attempts as int, absent[0]) {
        1 + tries((attempts - 1) as nat, absent.drop_first())
    } else {
        1
    }
}

/// How many waits such a search makes.
pub open spec fn waits(attempts: nat, absent: Seq<bool>) -> nat
    decreases attempts,
{
    if absent.len() > 0 && goes_on(attempts as int, absent[0]) {
        1 + waits((attempts - 1) as nat, absent.drop_first())
    } else {
        0
    }
}

/// A search waits exactly between its attempts: never after the last, and never
/// when the port was there at once. It makes at most `attempts` attempts, and
/// stops at the first that does not find the port absent.
pub proof fn waits_lie_between_tries(attempts: nat, absent: Seq<bool>)
    ensures
        attempts > 0 ==> waits(attempts, absent) + 1 == tries(attempts, absent),
        attempts == 0 ==> waits(attempts, absent) == 0 && tries(attempts, absent) == 0,
        tries(attempts, absent) <= attempts,
        tries(attempts, absent) <= absent.len() + 1,
        forall|i: int| 0 <= i < tries(attempts, absent) - 1 ==> #[trigger] absent[i],
        0 < tries(attempts, absent) < attempts && tries(attempts, absent) <= absent.len()
            ==> !absent[tries(attempts, absent) - 1],
    decreases attempts,
{
    if absent.len() > 0 && goes_on(attempts as int, absent[0]) {
        let rest = absent.drop_first();
        waits_lie_between_tries((attempts - 1) as nat, rest);
        assert forall|i: int| 0 <= i < tries(attempts, absent) - 1 implies #[trigger] absent[i] by {
            if i > 0 {
                assert(rest[i - 1] == absent[i]);
            }
        }
    }
}

/// The end of a listing: every port on a line of its own.
pub open spec fn listed(ports: Seq<String>) -> Seq<char>
    decreases ports.len(),
{
    if ports.len() == 0 {
        Seq::empty()
    } else {
        listed(ports.drop_last()) + "\n  "@ + ports.last()@
    }
}

/// What a listing of ports says; where there is none, what to check.
pub open spec fn listing(ports: Seq<String>) -> Seq<char> {
    if ports.len() == 0 {
        "no MIDI input port found.\n  - is the instrument powered on, with its cable connected?\n  - is its USB port set to send MIDI, rather than audio only?\n  - on macOS, does it show up in Audio MIDI Setup > MIDI Studio?"@
    } else {
        "available MIDI input ports:"@ + listed(ports)
    }
}

/// Writes down the ports there are, one per line, or what to check where there is
/// none.
pub fn format_port_list(ports: &Vec<String>) -> (text: String)
    ensures
        text@ == listing(ports@),
{
    if ports.len() == 0 {
        return String::from_str(
            "no MIDI input port found.\n  - is the instrument powered on, with its cable connected?\n  - is its USB port set to send MIDI, rather than audio only?\n  - on macOS, does it show up in Audio MIDI Setup > MIDI Studio?",
        );
    }
    let mut text = String::from_str("available MIDI input ports:");
    let mut index: usize = 0;
    assert(ports@.take(0) =~= Seq::<String>::empty());
    assert(text@ =~= "available MIDI input ports:"@ + listed(ports@.take(0)));
    while index < ports.len()
        invariant
            index <= ports@.len(),
            text@ == "available MIDI input ports:"@ + listed(ports@.take(index as int)),
        decreases ports@.len() - index,
    {
        text.append("\n  ");
        text.append(ports[index].as_str());
        proof {
            let taken = ports@.take(index + 1);
            assert(taken.drop_last() =~= ports@.take(index as int));
            assert(taken.last() == ports@[index as int]);
            assert(text@ =~= "available MIDI input ports:"@ + listed(taken));
        }
        index = index + 1;
    }
    assert(ports@.take(index as int) =~= ports@);
    text
}

} // verus!
