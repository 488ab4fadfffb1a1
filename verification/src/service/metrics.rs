//! What the gateway measures of its operations, with few and bounded attributes. Each function
//! says which readings have to be recorded.

use crate::fault::{Fault, FaultKind};
use crate::text;
use crate::time::Span;
use vstd::prelude::*;

verus! {

/// What is measured.
#[derive(Clone, Copy, Debug, PartialEq, Eq, Structural)]
pub enum Instrument {
    ServiceSessions,
    ServiceSessionLimit,
    BuildRequests,
    BuildRequestDuration,
    BuildExecutions,
    BuildExecutionDuration,
    BuildOutputCount,
    SharedBuildLeaders,
    SharedBuildFollowers,
    SharedBuildReusedResults,
    SharedBuildQueueDepth,
    SharedBuildActive,
    SharedBuildCollecting,
    SharedBuildQueueWaitDuration,
    SharedBuildQueueAdmissions,
    BackendPermitsActive,
    BackendPermitsLimit,
    BackendPermitWaitDuration,
    BackendSelections,
    BackendExecutions,
    BackendExecutionDuration,
    CacheSubstitutions,
    CacheSubstitutionDuration,
    CachePublications,
    CachePublicationDuration,
    StoreValidations,
    StoreValidationDuration,
    TransferActive,
    TransferObjects,
    TransferBytes,
    TransferObjectSize,
    TransferDuration,
    TransferRejections,
    TransferFailures,
    RecoveryAttempts,
    RecoveryDuration,
    RecoveryOutcomes,
    RecoveryMonitoring,
    NomadSubmissions,
    NomadSubmissionDuration,
    NomadPending,
    NomadPlacementDuration,
    NomadExecutions,
    NomadExecutionDuration,
    NomadCallbackConnections,
    NomadCallbackOutcomes,
}

/// A measured value: a count or level, or a length of time.
#[derive(Clone, Copy, Debug, PartialEq, Eq, Structural)]
pub enum Measured {
    Count(u64),
    Duration(Span),
}

/// The value of an attribute.
#[derive(Clone, Debug)]
pub enum AttributeValue {
    Text(String),
    Flag(bool),
}

/// An attribute of a reading.
#[derive(Clone, Debug)]
pub struct Attribute {
    pub name: &'static str,
    pub value: AttributeValue,
}

/// A reading that has to be recorded.
#[derive(Clone, Debug)]
pub struct Measurement {
    pub instrument: Instrument,
    pub value: Measured,
    pub attributes: Vec<Attribute>,
}

/// What an attribute holds.
pub enum AttributeContent {
    Text(Seq<char>),
    Flag(bool),
}

/// What a reading holds.
#[verifier::ext_equal]
pub struct Reading {
    pub instrument: Instrument,
    pub value: Measured,
    pub attributes: Seq<(Seq<char>, AttributeContent)>,
}

impl View for Attribute {
    type V = (Seq<char>, AttributeContent);

    open spec fn view(&self) -> (Seq<char>, AttributeContent) {
        (
            self.name@,
            match self.value {
                AttributeValue::Text(text) => AttributeContent::Text(text@),
                AttributeValue::Flag(flag) => AttributeContent::Flag(flag),
            },
        )
    }
}

/// What a list of attributes holds.
pub open spec fn contents(attributes: Seq<Attribute>) -> Seq<(Seq<char>, AttributeContent)> {
    attributes.map_values(|attribute: Attribute| attribute@)
}

impl View for Measurement {
    type V = Reading;

    open spec fn view(&self) -> Reading {
        Reading {
            instrument: self.instrument,
            value: self.value,
            attributes: contents(self.attributes@),
        }
    }
}

/// What a list of measurements holds.
pub open spec fn readings(measurements: Seq<Measurement>) -> Seq<Reading> {
    measurements.map_values(|measurement: Measurement| measurement@)
}

/// An attribute with a text.
pub open spec fn text_content(name: Seq<char>, value: Seq<char>) -> (Seq<char>, AttributeContent) {
    (name, AttributeContent::Text(value))
}

/// A reading of a count without attributes.
pub open spec fn level(instrument: Instrument, count: u64) -> Reading {
    Reading { instrument, value: Measured::Count(count), attributes: Seq::empty() }
}

/// A reading of a count.
pub open spec fn counted(
    instrument: Instrument,
    count: u64,
    attributes: Seq<(Seq<char>, AttributeContent)>,
) -> Reading {
    Reading { instrument, value: Measured::Count(count), attributes }
}

/// A reading of a length of time.
pub open spec fn timed(
    instrument: Instrument,
    duration: Span,
    attributes: Seq<(Seq<char>, AttributeContent)>,
) -> Reading {
    Reading { instrument, value: Measured::Duration(duration), attributes }
}

fn text_attribute(name: &'static str, value: &str) -> (attribute: Attribute)
    ensures
        attribute@ == text_content(name@, value@),
{
    Attribute { name, value: AttributeValue::Text(value.to_owned()) }
}

fn count_of(instrument: Instrument, count: u64, attributes: Vec<Attribute>) -> (measurement:
    Measurement)
    ensures
        measurement@ == counted(instrument, count, contents(attributes@)),
{
    Measurement { instrument, value: Measured::Count(count), attributes }
}

fn time_of(instrument: Instrument, duration: Span, attributes: Vec<Attribute>) -> (measurement:
    Measurement)
    ensures
        measurement@ == timed(instrument, duration, contents(attributes@)),
{
    Measurement { instrument, value: Measured::Duration(duration), attributes }
}

fn level_of(instrument: Instrument, count: u64) -> (measurement: Measurement)
    ensures
        measurement@ == level(instrument, count),
{
    let measurement = Measurement {
        instrument,
        value: Measured::Count(count),
        attributes: Vec::new(),
    };
    assert(measurement@.attributes =~= Seq::empty());
    measurement
}

fn single(measurement: Measurement) -> (measurements: Vec<Measurement>)
    ensures
        readings(measurements@) == seq![measurement@],
{
    let measurements: Vec<Measurement> = vec![measurement];
    assert(readings(measurements@) =~= seq![measurement@]);
    measurements
}

fn pair(first: Measurement, second: Measurement) -> (measurements: Vec<Measurement>)
    ensures
        readings(measurements@) == seq![first@, second@],
{
    let measurements: Vec<Measurement> = vec![first, second];
    assert(readings(measurements@) =~= seq![first@, second@]);
    measurements
}

fn extend(measurements: &mut Vec<Measurement>, more: Vec<Measurement>)
    ensures
        readings(final(measurements)@) == readings(old(measurements)@) + readings(more@),
{
    let mut more = more;
    let ghost added = more@;
    measurements.append(&mut more);
    assert(readings(measurements@) =~= readings(old(measurements)@) + readings(added));
}

/// The place of a key among others, each of them a list of texts.
pub open spec fn key_place(keys: Seq<Seq<Seq<char>>>, key: Seq<Seq<char>>) -> Option<int>
    decreases keys.len(),
{
    if keys.len() == 0 {
        None
    } else {
        match key_place(keys.drop_last(), key) {
            Some(place) => Some(place),
            None => if keys.last() == key {
                Some(keys.len() - 1)
            } else {
                None
            },
        }
    }
}

proof fn key_place_holds_the_key(keys: Seq<Seq<Seq<char>>>, key: Seq<Seq<char>>)
    ensures
        match key_place(keys, key) {
            Some(place) => 0 <= place < keys.len() && keys[place] == key,
            None => true,
        },
    decreases keys.len(),
{
    if keys.len() > 0 {
        key_place_holds_the_key(keys.drop_last(), key);
    }
}

proof fn key_place_stays(keys: Seq<Seq<Seq<char>>>, key: Seq<Seq<char>>, count: int)
    requires
        0 <= count <= keys.len(),
        key_place(keys.take(count), key) is Some,
    ensures
        key_place(keys, key) == key_place(keys.take(count), key),
    decreases keys.len(),
{
    if count == keys.len() {
        assert(keys.take(count) =~= keys);
    } else {
        assert(keys.drop_last().take(count) =~= keys.take(count));
        key_place_stays(keys.drop_last(), key, count);
    }
}

/// What a key of texts holds.
pub open spec fn key_content(key: Seq<String>) -> Seq<Seq<char>> {
    key.map_values(|part: String| part@)
}

/// Levels by key; a key that was never seen is at zero.
#[derive(Debug)]
pub struct Tally {
    keys: Vec<Vec<String>>,
    counts: Vec<u64>,
}

impl Tally {
    pub closed spec fn key_contents(&self) -> Seq<Seq<Seq<char>>> {
        self.keys@.map_values(|key: Vec<String>| key_content(key@))
    }

    pub closed spec fn well_formed(&self) -> bool {
        self.keys@.len() == self.counts@.len()
    }

    /// The level of a key.
    pub closed spec fn count(&self, key: Seq<Seq<char>>) -> u64 {
        match key_place(self.key_contents(), key) {
            Some(place) => self.counts@[place],
            None => 0,
        }
    }

    fn new() -> (tally: Self)
        ensures
            tally.well_formed(),
            forall|key: Seq<Seq<char>>| #[trigger] tally.count(key) == 0,
    {
        let tally = Tally { keys: Vec::new(), counts: Vec::new() };
        assert(tally.key_contents().len() == 0);
        tally
    }

    fn find(&self, key: &Vec<String>) -> (place: Option<usize>)
        requires
            self.well_formed(),
        ensures
            match place {
                Some(found) => key_place(self.key_contents(), key_content(key@)) == Some(
                    found as int,
                ) && found < self.counts@.len(),
                None => key_place(self.key_contents(), key_content(key@)) is None,
            },
    {
        let ghost keys = self.key_contents();
        let mut i: usize = 0;
        assert(keys.take(0) =~= Seq::<Seq<Seq<char>>>::empty());
        while i < self.keys.len()
            invariant
                self.well_formed(),
                keys == self.key_contents(),
                keys.len() == self.keys@.len(),
                i <= keys.len(),
                key_place(keys.take(i as int), key_content(key@)) is None,
            decreases keys.len() - i,
        {
            assert(keys.take(i + 1).drop_last() =~= keys.take(i as int));
            assert(keys[i as int] == key_content(self.keys@[i as int]@));
            if same_key(&self.keys[i], key) {
                proof {
                    key_place_stays(keys, key_content(key@), i + 1);
                }
                return Some(i);
            }
            i += 1;
        }
        assert(keys.take(keys.len() as int) =~= keys);
        None
    }

    fn get(&self, key: &Vec<String>) -> (count: u64)
        requires
            self.well_formed(),
        ensures
            count == self.count(key_content(key@)),
    {
        match self.find(key) {
            Some(place) => self.counts[place],
            None => 0,
        }
    }

    fn set(&mut self, key: Vec<String>, count: u64)
        requires
            old(self).well_formed(),
        ensures
            final(self).well_formed(),
            final(self).count(key_content(key@)) == count,
            forall|other: Seq<Seq<char>>|
                other != key_content(key@) ==> #[trigger] final(self).count(other) == old(self).count(other),
    {
        let ghost before = *self;
        let ghost wanted = key_content(key@);
        match self.find(&key) {
            Some(place) => {
                self.counts.set(place, count);
                assert(self.key_contents() == before.key_contents());
                assert forall|other: Seq<Seq<char>>| other != wanted implies #[trigger] self.count(
                    other,
                ) == before.count(other) by {
                    key_place_holds_the_key(before.key_contents(), other);
                    key_place_holds_the_key(before.key_contents(), wanted);
                }
            },
            None => {
                self.keys.push(key);
                self.counts.push(count);
                assert(self.key_contents() =~= before.key_contents().push(wanted));
                assert(self.key_contents().drop_last() =~= before.key_contents());
                assert forall|other: Seq<Seq<char>>| other != wanted implies #[trigger] self.count(
                    other,
                ) == before.count(other) by {
                    key_place_holds_the_key(before.key_contents(), other);
                }
            },
        }
    }
}

fn same_key(left: &Vec<String>, right: &Vec<String>) -> (same: bool)
    ensures
        same == (key_content(left@) == key_content(right@)),
{
    let ghost lefts = key_content(left@);
    let ghost rights = key_content(right@);
    if left.len() != right.len() {
        assert(lefts.len() != rights.len());
        return false;
    }
    let mut i: usize = 0;
    while i < left.len()
        invariant
            lefts == key_content(left@),
            rights == key_content(right@),
            left@.len() == right@.len(),
            i <= left@.len(),
            forall|j: int| 0 <= j < i ==> lefts[j] == rights[j],
        decreases left@.len() - i,
    {
        assert(lefts[i as int] == left@[i as int]@ && rights[i as int] == right@[i as int]@);
        if !text::same_text(left[i].as_str(), right[i].as_str()) {
            return false;
        }
        i += 1;
    }
    assert(lefts =~= rights);
    true
}

/// The levels that go up and down.
#[derive(Debug)]
pub struct GaugeState {
    service_sessions: u64,
    shared_build_queue_depth: u64,
    backend_permits: Tally,
    transfer_active: Tally,
    recovery_monitoring: u64,
    nomad_pending: Tally,
    nomad_callback_connections: u64,
}

impl GaugeState {
    pub closed spec fn well_formed(&self) -> bool {
        &&& self.backend_permits.well_formed()
        &&& self.transfer_active.well_formed()
        &&& self.nomad_pending.well_formed()
    }

    pub closed spec fn sessions(&self) -> u64 {
        self.service_sessions
    }

    pub closed spec fn queue_depth(&self) -> u64 {
        self.shared_build_queue_depth
    }

    /// The permits of a backend that are held.
    pub closed spec fn permits(&self, backend: Seq<char>) -> u64 {
        self.backend_permits.count(seq![backend])
    }

    /// The transfers of a kind that are going on.
    pub closed spec fn transfers(
        &self,
        direction: Seq<char>,
        purpose: Seq<char>,
        transport: Seq<char>,
    ) -> u64 {
        self.transfer_active.count(seq![direction, purpose, transport])
    }

    pub closed spec fn monitoring(&self) -> u64 {
        self.recovery_monitoring
    }

    /// The allocations of a backend that wait to be placed.
    pub closed spec fn pending(&self, backend: Seq<char>) -> u64 {
        self.nomad_pending.count(seq![backend])
    }

    pub closed spec fn callbacks(&self) -> u64 {
        self.nomad_callback_connections
    }

    /// The levels that are kept by key agree.
    pub open spec fn same_keyed(&self, other: GaugeState) -> bool {
        &&& forall|backend: Seq<char>| #[trigger]
            self.permits(backend) == other.permits(backend)
        &&& forall|direction: Seq<char>, purpose: Seq<char>, transport: Seq<char>|
            #[trigger] self.transfers(direction, purpose, transport) == other.transfers(
                direction,
                purpose,
                transport,
            )
        &&& forall|backend: Seq<char>| #[trigger] self.pending(backend) == other.pending(backend)
    }

    /// The levels that are single numbers agree.
    pub open spec fn same_single(&self, other: GaugeState) -> bool {
        &&& self.sessions() == other.sessions()
        &&& self.queue_depth() == other.queue_depth()
        &&& self.monitoring() == other.monitoring()
        &&& self.callbacks() == other.callbacks()
    }

    pub fn new() -> (state: Self)
        ensures
            state.well_formed(),
            state.sessions() == 0,
            state.queue_depth() == 0,
            state.monitoring() == 0,
            state.callbacks() == 0,
            forall|backend: Seq<char>| #[trigger] state.permits(backend) == 0,
            forall|direction: Seq<char>, purpose: Seq<char>, transport: Seq<char>|
                #[trigger] state.transfers(direction, purpose, transport) == 0,
            forall|backend: Seq<char>| #[trigger] state.pending(backend) == 0,
    {
        GaugeState {
            service_sessions: 0,
            shared_build_queue_depth: 0,
            backend_permits: Tally::new(),
            transfer_active: Tally::new(),
            recovery_monitoring: 0,
            nomad_pending: Tally::new(),
            nomad_callback_connections: 0,
        }
    }
}

/// One more, up to the largest number.
pub open spec fn up(count: u64) -> u64 {
    if count == u64::MAX {
        count
    } else {
        (count + 1) as u64
    }
}

/// One less, down to zero.
pub open spec fn down(count: u64) -> u64 {
    if count == 0 {
        count
    } else {
        (count - 1) as u64
    }
}

/// A count moved by a difference, within what can be counted.
pub open spec fn moved(count: u64, delta: i64) -> u64 {
    if count + delta < 0 {
        0
    } else if count + delta > u64::MAX {
        u64::MAX
    } else {
        (count + delta) as u64
    }
}

fn move_count(count: u64, delta: i64) -> (next: u64)
    ensures
        next == moved(count, delta),
{
    let next: i128 = count as i128 + delta as i128;
    if next < 0 {
        0
    } else if next > u64::MAX as i128 {
        u64::MAX
    } else {
        next as u64
    }
}

/// The class of a failure, as it is counted.
pub fn io_failure_class(error: &Fault) -> (class: &'static str)
    ensures
        class@ == (match error.kind {
            FaultKind::TimedOut => "timeout"@,
            FaultKind::InvalidData | FaultKind::InvalidInput => "validation"@,
            FaultKind::NotFound => "missing"@,
            FaultKind::PermissionDenied => "permission"@,
            FaultKind::WouldBlock => "capacity"@,
            FaultKind::Interrupted => "cancelled"@,
            FaultKind::UnexpectedEof
            | FaultKind::BrokenPipe
            | FaultKind::ConnectionAborted
            | FaultKind::ConnectionRefused
            | FaultKind::ConnectionReset
            | FaultKind::NotConnected => "transport"@,
            _ => "internal"@,
        }),
{
    match error.kind {
        FaultKind::TimedOut => "timeout",
        FaultKind::InvalidData | FaultKind::InvalidInput => "validation",
        FaultKind::NotFound => "missing",
        FaultKind::PermissionDenied => "permission",
        FaultKind::WouldBlock => "capacity",
        FaultKind::Interrupted => "cancelled",
        FaultKind::UnexpectedEof
        | FaultKind::BrokenPipe
        | FaultKind::ConnectionAborted
        | FaultKind::ConnectionRefused
        | FaultKind::ConnectionReset
        | FaultKind::NotConnected => "transport",
        _ => "internal",
    }
}


/// What an optional text holds.
pub open spec fn option_text(value: Option<&str>) -> Option<Seq<char>> {
    match value {
        Some(text) => Some(text@),
        None => None,
    }
}

/// How something ended, and the class of its failure where it has one.
pub open spec fn spec_outcome_attributes(outcome: Seq<char>, failure_class: Option<Seq<char>>) -> Seq<(Seq<char>, AttributeContent)> {
    let fixed = seq![text_content("outcome"@, outcome)];
    match failure_class {
        Some(value) => fixed.push(text_content("failure_class"@, value)),
        None => fixed,
    }
}

fn outcome_attributes(outcome: &str, failure_class: Option<&str>) -> (attributes: Vec<Attribute>)
    ensures
        contents(attributes@) == spec_outcome_attributes(outcome@, option_text(failure_class)),
{
    let mut attributes: Vec<Attribute> = vec![text_attribute("outcome", outcome)];
    if let Some(value) = failure_class {
        attributes.push(text_attribute("failure_class", value));
    }
    assert(contents(attributes@) =~= spec_outcome_attributes(outcome@, option_text(failure_class)));
    attributes
}

/// Which backend something is of.
pub open spec fn spec_backend_attributes(name: Seq<char>, kind: Seq<char>) -> Seq<(Seq<char>, AttributeContent)> {
    seq![text_content("backend.name"@, name), text_content("backend.kind"@, kind)]
}

fn backend_attributes(name: &str, kind: &str) -> (attributes: Vec<Attribute>)
    ensures
        contents(attributes@) == spec_backend_attributes(name@, kind@),
{
    let attributes: Vec<Attribute> = vec![
        text_attribute("backend.name", name),
        text_attribute("backend.kind", kind),
    ];
    assert(contents(attributes@) =~= spec_backend_attributes(name@, kind@));
    attributes
}

/// Which backend ran a build, and how it ended.
pub open spec fn spec_execution_attributes(name: Seq<char>, kind: Seq<char>, outcome: Seq<char>, failure_class: Option<Seq<char>>) -> Seq<(Seq<char>, AttributeContent)> {
    let fixed = seq![
        text_content("backend.name"@, name),
        text_content("backend.kind"@, kind),
        text_content("outcome"@, outcome),
    ];
    match failure_class {
        Some(value) => fixed.push(text_content("failure_class"@, value)),
        None => fixed,
    }
}

fn execution_attributes(
    name: &str,
    kind: &str,
    outcome: &str,
    failure_class: Option<&str>,
) -> (attributes: Vec<Attribute>)
    ensures
        contents(attributes@) == spec_execution_attributes(
            name@,
            kind@,
            outcome@,
            option_text(failure_class),
        ),
{
    let mut attributes: Vec<Attribute> = vec![
        text_attribute("backend.name", name),
        text_attribute("backend.kind", kind),
        text_attribute("outcome", outcome),
    ];
    if let Some(value) = failure_class {
        attributes.push(text_attribute("failure_class", value));
    }
    assert(contents(attributes@) =~= spec_execution_attributes(name@, kind@, outcome@, option_text(failure_class)));
    attributes
}

/// How a validation ended, and on whose authority.
pub open spec fn spec_validation_attributes(outcome: Seq<char>, authority: Seq<char>) -> Seq<(Seq<char>, AttributeContent)> {
    seq![text_content("outcome"@, outcome), text_content("authority"@, authority)]
}

fn validation_attributes(outcome: &str, authority: &str) -> (attributes: Vec<Attribute>)
    ensures
        contents(attributes@) == spec_validation_attributes(outcome@, authority@),
{
    let attributes: Vec<Attribute> = vec![
        text_attribute("outcome", outcome),
        text_attribute("authority", authority),
    ];
    assert(contents(attributes@) =~= spec_validation_attributes(outcome@, authority@));
    attributes
}

/// What is transferred, where to and by what.
pub open spec fn spec_transfer_attributes(direction: Seq<char>, purpose: Seq<char>, transport: Seq<char>) -> Seq<(Seq<char>, AttributeContent)> {
    seq![
        text_content("direction"@, direction),
        text_content("purpose"@, purpose),
        text_content("transport"@, transport),
    ]
}

fn transfer_attributes(
    direction: &str,
    purpose: &str,
    transport: &str,
) -> (attributes: Vec<Attribute>)
    ensures
        contents(attributes@) == spec_transfer_attributes(direction@, purpose@, transport@),
{
    let attributes: Vec<Attribute> = vec![
        text_attribute("direction", direction),
        text_attribute("purpose", purpose),
        text_attribute("transport", transport),
    ];
    assert(contents(attributes@) =~= spec_transfer_attributes(direction@, purpose@, transport@));
    attributes
}

/// What was to be transferred, and the class of the failure.
pub open spec fn spec_transfer_failure_attributes(direction: Seq<char>, purpose: Seq<char>, transport: Seq<char>, failure_class: Seq<char>) -> Seq<(Seq<char>, AttributeContent)> {
    seq![
        text_content("direction"@, direction),
        text_content("purpose"@, purpose),
        text_content("transport"@, transport),
        text_content("failure_class"@, failure_class),
    ]
}

fn transfer_failure_attributes(
    direction: &str,
    purpose: &str,
    transport: &str,
    failure_class: &str,
) -> (attributes: Vec<Attribute>)
    ensures
        contents(attributes@) == spec_transfer_failure_attributes(
            direction@,
            purpose@,
            transport@,
            failure_class@,
        ),
{
    let attributes: Vec<Attribute> = vec![
        text_attribute("direction", direction),
        text_attribute("purpose", purpose),
        text_attribute("transport", transport),
        text_attribute("failure_class", failure_class),
    ];
    assert(contents(attributes@) =~= spec_transfer_failure_attributes(direction@, purpose@, transport@, failure_class@));
    attributes
}

/// What was not let in or out, and why.
pub open spec fn spec_rejection_attributes(direction: Seq<char>, reason: Seq<char>) -> Seq<(Seq<char>, AttributeContent)> {
    seq![text_content("direction"@, direction), text_content("reason"@, reason)]
}

fn rejection_attributes(direction: &str, reason: &str) -> (attributes: Vec<Attribute>)
    ensures
        contents(attributes@) == spec_rejection_attributes(direction@, reason@),
{
    let attributes: Vec<Attribute> = vec![
        text_attribute("direction", direction),
        text_attribute("reason", reason),
    ];
    assert(contents(attributes@) =~= spec_rejection_attributes(direction@, reason@));
    attributes
}

/// Which recovery something is of.
pub open spec fn spec_operation_attributes(operation: Seq<char>) -> Seq<(Seq<char>, AttributeContent)> {
    seq![text_content("operation"@, operation)]
}

fn operation_attributes(operation: &str) -> (attributes: Vec<Attribute>)
    ensures
        contents(attributes@) == spec_operation_attributes(operation@),
{
    let attributes: Vec<Attribute> = vec![text_attribute("operation", operation)];
    assert(contents(attributes@) =~= spec_operation_attributes(operation@));
    attributes
}

/// Which recovery something is of, and what it found.
pub open spec fn spec_recovery_attributes(operation: Seq<char>, outcome: Seq<char>) -> Seq<(Seq<char>, AttributeContent)> {
    seq![text_content("operation"@, operation), text_content("outcome"@, outcome)]
}

fn recovery_attributes(operation: &str, outcome: &str) -> (attributes: Vec<Attribute>)
    ensures
        contents(attributes@) == spec_recovery_attributes(operation@, outcome@),
{
    let attributes: Vec<Attribute> = vec![
        text_attribute("operation", operation),
        text_attribute("outcome", outcome),
    ];
    assert(contents(attributes@) =~= spec_recovery_attributes(operation@, outcome@));
    attributes
}

/// Which recovery failed, and the class of the failure.
pub open spec fn spec_recovery_failure_attributes(operation: Seq<char>, outcome: Seq<char>, failure_class: Seq<char>) -> Seq<(Seq<char>, AttributeContent)> {
    seq![
        text_content("operation"@, operation),
        text_content("outcome"@, outcome),
        text_content("failure_class"@, failure_class),
    ]
}

fn recovery_failure_attributes(
    operation: &str,
    outcome: &str,
    failure_class: &str,
) -> (attributes: Vec<Attribute>)
    ensures
        contents(attributes@) == spec_recovery_failure_attributes(
            operation@,
            outcome@,
            failure_class@,
        ),
{
    let attributes: Vec<Attribute> = vec![
        text_attribute("operation", operation),
        text_attribute("outcome", outcome),
        text_attribute("failure_class", failure_class),
    ];
    assert(contents(attributes@) =~= spec_recovery_failure_attributes(operation@, outcome@, failure_class@));
    attributes
}

/// Which Nomad backend something is of.
pub open spec fn spec_nomad_attributes(backend: Seq<char>) -> Seq<(Seq<char>, AttributeContent)> {
    seq![text_content("backend.name"@, backend)]
}

fn nomad_attributes(backend: &str) -> (attributes: Vec<Attribute>)
    ensures
        contents(attributes@) == spec_nomad_attributes(backend@),
{
    let attributes: Vec<Attribute> = vec![text_attribute("backend.name", backend)];
    assert(contents(attributes@) =~= spec_nomad_attributes(backend@));
    attributes
}

/// Which Nomad backend something is of, and how it ended.
pub open spec fn spec_nomad_outcome_attributes(backend: Seq<char>, outcome: Seq<char>) -> Seq<(Seq<char>, AttributeContent)> {
    seq![text_content("backend.name"@, backend), text_content("outcome"@, outcome)]
}

fn nomad_outcome_attributes(backend: &str, outcome: &str) -> (attributes: Vec<Attribute>)
    ensures
        contents(attributes@) == spec_nomad_outcome_attributes(backend@, outcome@),
{
    let attributes: Vec<Attribute> = vec![
        text_attribute("backend.name", backend),
        text_attribute("outcome", outcome),
    ];
    assert(contents(attributes@) =~= spec_nomad_outcome_attributes(backend@, outcome@));
    attributes
}

/// How many sessions may be served at once.
pub fn record_service_session_limit(limit: u64) -> (measurements: Vec<Measurement>)
    ensures
        readings(measurements@) == seq![level(Instrument::ServiceSessionLimit, limit)],
{
    single(level_of(Instrument::ServiceSessionLimit, limit))
}

/// A request leads a shared build.
pub fn shared_build_leader() -> (measurements: Vec<Measurement>)
    ensures
        readings(measurements@) == seq![level(Instrument::SharedBuildLeaders, 1)],
{
    single(level_of(Instrument::SharedBuildLeaders, 1))
}

/// A request follows a shared build.
pub fn shared_build_follower() -> (measurements: Vec<Measurement>)
    ensures
        readings(measurements@) == seq![level(Instrument::SharedBuildFollowers, 1)],
{
    single(level_of(Instrument::SharedBuildFollowers, 1))
}

/// A request takes the result of a shared build.
pub fn shared_build_reused_result() -> (measurements: Vec<Measurement>)
    ensures
        readings(measurements@) == seq![level(Instrument::SharedBuildReusedResults, 1)],
{
    single(level_of(Instrument::SharedBuildReusedResults, 1))
}

/// A build is let in.
pub fn build_admitted(build_mode: &str, fixed_output: bool, output_count: usize) -> (measurements:
    Vec<Measurement>)
    ensures
        ({
            let attributes = seq![
                text_content("build_mode"@, build_mode@),
                ("fixed_output"@, AttributeContent::Flag(fixed_output)),
            ];
            readings(measurements@) == seq![
                counted(Instrument::BuildRequests, 1, attributes),
                counted(Instrument::BuildOutputCount, output_count as u64, attributes),
            ]
        }),
{
    let ghost expected = seq![
        text_content("build_mode"@, build_mode@),
        ("fixed_output"@, AttributeContent::Flag(fixed_output)),
    ];
    let first: Vec<Attribute> = vec![
        text_attribute("build_mode", build_mode),
        Attribute { name: "fixed_output", value: AttributeValue::Flag(fixed_output) },
    ];
    let second: Vec<Attribute> = vec![
        text_attribute("build_mode", build_mode),
        Attribute { name: "fixed_output", value: AttributeValue::Flag(fixed_output) },
    ];
    assert(contents(first@) =~= expected);
    assert(contents(second@) =~= expected);
    pair(
        count_of(Instrument::BuildRequests, 1, first),
        count_of(Instrument::BuildOutputCount, output_count as u64, second),
    )
}

/// A request for a build has ended.
pub fn build_request_finished(
    duration: Span,
    outcome: &str,
    failure_class: Option<&str>,
) -> (measurements: Vec<Measurement>)
    ensures
        readings(measurements@) == seq![
            timed(
                Instrument::BuildRequestDuration,
                duration,
                spec_outcome_attributes(outcome@, option_text(failure_class)),
            ),
        ],
{
    single(
        time_of(
            Instrument::BuildRequestDuration,
            duration,
            outcome_attributes(outcome, failure_class),
        ),
    )
}

/// The execution of a build has ended.
pub fn build_execution_finished(
    duration: Span,
    outcome: &str,
    failure_class: Option<&str>,
) -> (measurements: Vec<Measurement>)
    ensures
        readings(measurements@) == seq![
            counted(
                Instrument::BuildExecutions,
                1,
                spec_outcome_attributes(outcome@, option_text(failure_class)),
            ),
            timed(
                Instrument::BuildExecutionDuration,
                duration,
                spec_outcome_attributes(outcome@, option_text(failure_class)),
            ),
        ],
{
    pair(
        count_of(Instrument::BuildExecutions, 1, outcome_attributes(outcome, failure_class)),
        time_of(
            Instrument::BuildExecutionDuration,
            duration,
            outcome_attributes(outcome, failure_class),
        ),
    )
}

/// A backend has ended a build.
pub fn backend_execution_finished(
    name: &str,
    kind: &str,
    duration: Span,
    outcome: &str,
    failure_class: Option<&str>,
) -> (measurements: Vec<Measurement>)
    ensures
        readings(measurements@) == seq![
            counted(
                Instrument::BackendExecutions,
                1,
                spec_execution_attributes(name@, kind@, outcome@, option_text(failure_class)),
            ),
            timed(
                Instrument::BackendExecutionDuration,
                duration,
                spec_execution_attributes(name@, kind@, outcome@, option_text(failure_class)),
            ),
        ],
{
    pair(
        count_of(
            Instrument::BackendExecutions,
            1,
            execution_attributes(name, kind, outcome, failure_class),
        ),
        time_of(
            Instrument::BackendExecutionDuration,
            duration,
            execution_attributes(name, kind, outcome, failure_class),
        ),
    )
}

/// A substitution from the cache has ended.
pub fn cache_substitution_finished(
    duration: Span,
    outcome: &str,
) -> (measurements: Vec<Measurement>)
    ensures
        readings(measurements@) == seq![
            counted(Instrument::CacheSubstitutions, 1, spec_outcome_attributes(outcome@, None)),
            timed(
                Instrument::CacheSubstitutionDuration,
                duration,
                spec_outcome_attributes(outcome@, None),
            ),
        ],
{
    pair(
        count_of(Instrument::CacheSubstitutions, 1, outcome_attributes(outcome, None)),
        time_of(Instrument::CacheSubstitutionDuration, duration, outcome_attributes(outcome, None)),
    )
}

/// A publication to the cache has ended.
pub fn cache_publication_finished(duration: Span, outcome: &str) -> (measurements: Vec<Measurement>)
    ensures
        readings(measurements@) == seq![
            counted(Instrument::CachePublications, 1, spec_outcome_attributes(outcome@, None)),
            timed(
                Instrument::CachePublicationDuration,
                duration,
                spec_outcome_attributes(outcome@, None),
            ),
        ],
{
    pair(
        count_of(Instrument::CachePublications, 1, outcome_attributes(outcome, None)),
        time_of(Instrument::CachePublicationDuration, duration, outcome_attributes(outcome, None)),
    )
}

/// A validation of the store has ended.
pub fn store_validation_finished(
    duration: Span,
    outcome: &str,
    authority: &str,
) -> (measurements: Vec<Measurement>)
    ensures
        readings(measurements@) == seq![
            counted(
                Instrument::StoreValidations,
                1,
                spec_validation_attributes(outcome@, authority@),
            ),
            timed(
                Instrument::StoreValidationDuration,
                duration,
                spec_validation_attributes(outcome@, authority@),
            ),
        ],
{
    pair(
        count_of(Instrument::StoreValidations, 1, validation_attributes(outcome, authority)),
        time_of(
            Instrument::StoreValidationDuration,
            duration,
            validation_attributes(outcome, authority),
        ),
    )
}

/// A submission to Nomad has ended.
pub fn nomad_submission_finished(
    backend: &str,
    duration: Span,
    outcome: &str,
) -> (measurements: Vec<Measurement>)
    ensures
        readings(measurements@) == seq![
            counted(
                Instrument::NomadSubmissions,
                1,
                spec_nomad_outcome_attributes(backend@, outcome@),
            ),
            timed(
                Instrument::NomadSubmissionDuration,
                duration,
                spec_nomad_outcome_attributes(backend@, outcome@),
            ),
        ],
{
    pair(
        count_of(Instrument::NomadSubmissions, 1, nomad_outcome_attributes(backend, outcome)),
        time_of(
            Instrument::NomadSubmissionDuration,
            duration,
            nomad_outcome_attributes(backend, outcome),
        ),
    )
}

/// An allocation has been placed.
pub fn nomad_placed(backend: &str, duration: Span) -> (measurements: Vec<Measurement>)
    ensures
        readings(measurements@) == seq![
            timed(Instrument::NomadPlacementDuration, duration, spec_nomad_attributes(backend@)),
        ],
{
    single(
        time_of(Instrument::NomadPlacementDuration, duration, nomad_attributes(backend)),
    )
}

/// An execution on Nomad has ended.
pub fn nomad_execution_finished(
    backend: &str,
    duration: Span,
    outcome: &str,
) -> (measurements: Vec<Measurement>)
    ensures
        readings(measurements@) == seq![
            counted(
                Instrument::NomadExecutions,
                1,
                spec_nomad_outcome_attributes(backend@, outcome@),
            ),
            timed(
                Instrument::NomadExecutionDuration,
                duration,
                spec_nomad_outcome_attributes(backend@, outcome@),
            ),
        ],
{
    pair(
        count_of(Instrument::NomadExecutions, 1, nomad_outcome_attributes(backend, outcome)),
        time_of(
            Instrument::NomadExecutionDuration,
            duration,
            nomad_outcome_attributes(backend, outcome),
        ),
    )
}

/// A transfer was not let in or out.
pub fn transfer_rejected(direction: &str, reason: &str) -> (measurements: Vec<Measurement>)
    ensures
        readings(measurements@) == seq![
            counted(
                Instrument::TransferRejections,
                1,
                spec_rejection_attributes(direction@, reason@),
            ),
        ],
{
    single(
        count_of(Instrument::TransferRejections, 1, rejection_attributes(direction, reason)),
    )
}

/// A recovery starts.
pub fn recovery_started(operation: &str) -> (measurements: Vec<Measurement>)
    ensures
        readings(measurements@) == seq![
            counted(Instrument::RecoveryAttempts, 1, spec_operation_attributes(operation@)),
        ],
{
    single(
        count_of(Instrument::RecoveryAttempts, 1, operation_attributes(operation)),
    )
}

/// A recovery has failed.
pub fn recovery_failed(
    operation: &str,
    duration: Span,
    failure_class: &str,
) -> (measurements: Vec<Measurement>)
    ensures
        readings(measurements@) == seq![
            counted(
                Instrument::RecoveryOutcomes,
                1,
                spec_recovery_failure_attributes(operation@, "failed"@, failure_class@),
            ),
            timed(
                Instrument::RecoveryDuration,
                duration,
                spec_recovery_failure_attributes(operation@, "failed"@, failure_class@),
            ),
        ],
{
    pair(
        count_of(
            Instrument::RecoveryOutcomes,
            1,
            recovery_failure_attributes(operation, "failed", failure_class),
        ),
        time_of(
            Instrument::RecoveryDuration,
            duration,
            recovery_failure_attributes(operation, "failed", failure_class),
        ),
    )
}

/// The attributes of the choice of a backend; a backend is named where its kind is known too.
pub open spec fn selection_attributes(
    name: Option<Seq<char>>,
    kind: Option<Seq<char>>,
    outcome: Seq<char>,
    failure_class: Option<Seq<char>>,
) -> Seq<(Seq<char>, AttributeContent)> {
    let backend = match (name, kind) {
        (Some(name), Some(kind)) => spec_backend_attributes(name, kind),
        _ => Seq::empty(),
    };
    let failure = match failure_class {
        Some(class) => seq![text_content("failure_class"@, class)],
        None => Seq::empty(),
    };
    seq![text_content("outcome"@, outcome)] + backend + failure
}

/// A backend was chosen, or none was.
pub fn backend_selection(
    name: Option<&str>,
    kind: Option<&str>,
    outcome: &str,
    failure_class: Option<&str>,
) -> (measurements: Vec<Measurement>)
    ensures
        readings(measurements@) == seq![
            counted(
                Instrument::BackendSelections,
                1,
                selection_attributes(
                    option_text(name),
                    option_text(kind),
                    outcome@,
                    option_text(failure_class),
                ),
            ),
        ],
{
    let mut attributes: Vec<Attribute> = vec![text_attribute("outcome", outcome)];
    if let (Some(name), Some(kind)) = (name, kind) {
        attributes.push(text_attribute("backend.name", name));
        attributes.push(text_attribute("backend.kind", kind));
    }
    if let Some(class) = failure_class {
        attributes.push(text_attribute("failure_class", class));
    }
    assert(contents(attributes@) =~= selection_attributes(
        option_text(name),
        option_text(kind),
        outcome@,
        option_text(failure_class),
    ));
    single(count_of(Instrument::BackendSelections, 1, attributes))
}

/// The reading of what a recovery found, where it found any.
pub open spec fn outcome_readings(operation: Seq<char>, outcome: Seq<char>, count: usize) -> Seq<
    Reading,
> {
    if count > 0 {
        seq![
            counted(
                Instrument::RecoveryOutcomes,
                count as u64,
                spec_recovery_attributes(operation, outcome),
            ),
        ]
    } else {
        Seq::empty()
    }
}

fn outcome_measurements(operation: &str, outcome: &str, count: usize) -> (measurements: Vec<
    Measurement,
>)
    ensures
        readings(measurements@) == outcome_readings(operation@, outcome@, count),
{
    if count > 0 {
        single(
            count_of(
                Instrument::RecoveryOutcomes,
                count as u64,
                recovery_attributes(operation, outcome),
            ),
        )
    } else {
        let measurements: Vec<Measurement> = Vec::new();
        assert(readings(measurements@) =~= Seq::empty());
        measurements
    }
}

/// The readings of a recovery that has ended.
pub open spec fn recovery_readings(
    operation: Seq<char>,
    duration: Span,
    succeeded: usize,
    failed: usize,
    monitoring: usize,
) -> Seq<Reading> {
    seq![timed(Instrument::RecoveryDuration, duration, spec_operation_attributes(operation))]
        + outcome_readings(operation, "succeeded"@, succeeded) + outcome_readings(
        operation,
        "failed"@,
        failed,
    ) + outcome_readings(operation, "monitoring"@, monitoring)
}

/// A recovery has ended.
pub fn recovery_finished(
    operation: &str,
    duration: Span,
    succeeded: usize,
    failed: usize,
    monitoring: usize,
) -> (measurements: Vec<Measurement>)
    ensures
        readings(measurements@) == recovery_readings(
            operation@,
            duration,
            succeeded,
            failed,
            monitoring,
        ),
{
    let mut measurements = single(
        time_of(Instrument::RecoveryDuration, duration, operation_attributes(operation)),
    );
    extend(&mut measurements, outcome_measurements(operation, "succeeded", succeeded));
    extend(&mut measurements, outcome_measurements(operation, "failed", failed));
    extend(&mut measurements, outcome_measurements(operation, "monitoring", monitoring));
    measurements
}


/// A session starts.
pub fn session_started(state: &mut GaugeState) -> (measurements: Vec<Measurement>)
    requires
        old(state).well_formed(),
    ensures
        final(state).well_formed(),
        final(state).same_keyed(*old(state)),
        final(state).sessions() == up(old(state).sessions()),
        final(state).queue_depth() == old(state).queue_depth(),
        final(state).monitoring() == old(state).monitoring(),
        final(state).callbacks() == old(state).callbacks(),
        readings(measurements@) == seq![level(Instrument::ServiceSessions, final(state).sessions())],
{
    state.service_sessions = state.service_sessions.saturating_add(1);

    single(level_of(Instrument::ServiceSessions, state.service_sessions))
}

/// A session has ended.
pub fn session_finished(state: &mut GaugeState) -> (measurements: Vec<Measurement>)
    requires
        old(state).well_formed(),
    ensures
        final(state).well_formed(),
        final(state).same_keyed(*old(state)),
        final(state).sessions() == down(old(state).sessions()),
        final(state).queue_depth() == old(state).queue_depth(),
        final(state).monitoring() == old(state).monitoring(),
        final(state).callbacks() == old(state).callbacks(),
        readings(measurements@) == seq![level(Instrument::ServiceSessions, final(state).sessions())],
{
    state.service_sessions = state.service_sessions.saturating_sub(1);

    single(level_of(Instrument::ServiceSessions, state.service_sessions))
}

/// A shared build is queued.
pub fn shared_build_enqueued(state: &mut GaugeState) -> (measurements: Vec<Measurement>)
    requires
        old(state).well_formed(),
    ensures
        final(state).well_formed(),
        final(state).same_keyed(*old(state)),
        final(state).sessions() == old(state).sessions(),
        final(state).queue_depth() == up(old(state).queue_depth()),
        final(state).monitoring() == old(state).monitoring(),
        final(state).callbacks() == old(state).callbacks(),
        readings(measurements@) == seq![level(Instrument::SharedBuildQueueDepth, final(state).queue_depth())],
{
    state.shared_build_queue_depth = state.shared_build_queue_depth.saturating_add(1);

    single(level_of(Instrument::SharedBuildQueueDepth, state.shared_build_queue_depth))
}

/// A shared build has left the queue.
pub fn shared_build_left_queue(state: &mut GaugeState) -> (measurements: Vec<Measurement>)
    requires
        old(state).well_formed(),
    ensures
        final(state).well_formed(),
        final(state).same_keyed(*old(state)),
        final(state).sessions() == old(state).sessions(),
        final(state).queue_depth() == down(old(state).queue_depth()),
        final(state).monitoring() == old(state).monitoring(),
        final(state).callbacks() == old(state).callbacks(),
        readings(measurements@) == seq![level(Instrument::SharedBuildQueueDepth, final(state).queue_depth())],
{
    state.shared_build_queue_depth = state.shared_build_queue_depth.saturating_sub(1);

    single(level_of(Instrument::SharedBuildQueueDepth, state.shared_build_queue_depth))
}

/// The number of monitored builds changes.
pub fn recovery_monitoring_changed(
    state: &mut GaugeState,
    delta: i64,
) -> (measurements: Vec<Measurement>)
    requires
        old(state).well_formed(),
    ensures
        final(state).well_formed(),
        final(state).same_keyed(*old(state)),
        final(state).sessions() == old(state).sessions(),
        final(state).queue_depth() == old(state).queue_depth(),
        final(state).monitoring() == moved(old(state).monitoring(), delta),
        final(state).callbacks() == old(state).callbacks(),
        readings(measurements@) == seq![level(Instrument::RecoveryMonitoring, final(state).monitoring())],
{
    state.recovery_monitoring = move_count(state.recovery_monitoring, delta);

    single(level_of(Instrument::RecoveryMonitoring, state.recovery_monitoring))
}

/// A worker connects.
pub fn nomad_callback_started(state: &mut GaugeState) -> (measurements: Vec<Measurement>)
    requires
        old(state).well_formed(),
    ensures
        final(state).well_formed(),
        final(state).same_keyed(*old(state)),
        final(state).sessions() == old(state).sessions(),
        final(state).queue_depth() == old(state).queue_depth(),
        final(state).monitoring() == old(state).monitoring(),
        final(state).callbacks() == up(old(state).callbacks()),
        readings(measurements@) == seq![level(Instrument::NomadCallbackConnections, final(state).callbacks())],
{
    state.nomad_callback_connections = state.nomad_callback_connections.saturating_add(1);

    single(level_of(Instrument::NomadCallbackConnections, state.nomad_callback_connections))
}

/// The connection of a worker has ended.
pub fn nomad_callback_finished(
    state: &mut GaugeState,
    outcome: &str,
) -> (measurements: Vec<Measurement>)
    requires
        old(state).well_formed(),
    ensures
        final(state).well_formed(),
        final(state).same_keyed(*old(state)),
        final(state).sessions() == old(state).sessions(),
        final(state).queue_depth() == old(state).queue_depth(),
        final(state).monitoring() == old(state).monitoring(),
        final(state).callbacks() == down(old(state).callbacks()),
        readings(measurements@) == seq![
            level(Instrument::NomadCallbackConnections, final(state).callbacks()),
            counted(Instrument::NomadCallbackOutcomes, 1, spec_outcome_attributes(outcome@, None)),
        ],
{
    state.nomad_callback_connections = state.nomad_callback_connections.saturating_sub(1);

    pair(
        level_of(Instrument::NomadCallbackConnections, state.nomad_callback_connections),
        count_of(Instrument::NomadCallbackOutcomes, 1, outcome_attributes(outcome, None)),
    )
}

/// A shared build has left the queue because it was let in.
pub fn shared_build_admitted(state: &mut GaugeState, wait: Span) -> (measurements: Vec<Measurement>)
    requires
        old(state).well_formed(),
    ensures
        final(state).well_formed(),
        final(state).same_keyed(*old(state)),
        final(state).sessions() == old(state).sessions(),
        final(state).queue_depth() == down(old(state).queue_depth()),
        final(state).monitoring() == old(state).monitoring(),
        final(state).callbacks() == old(state).callbacks(),
        readings(measurements@) == seq![
            level(Instrument::SharedBuildQueueDepth, final(state).queue_depth()),
            level(Instrument::SharedBuildQueueAdmissions, 1),
            timed(Instrument::SharedBuildQueueWaitDuration, wait, Seq::empty()),
        ],
{
    let mut measurements = shared_build_left_queue(state);
    let nothing: Vec<Attribute> = Vec::new();
    assert(contents(nothing@) =~= Seq::empty());
    extend(
        &mut measurements,
        pair(
            level_of(Instrument::SharedBuildQueueAdmissions, 1),
            time_of(Instrument::SharedBuildQueueWaitDuration, wait, nothing),
        ),
    );
    assert(readings(measurements@) =~= seq![
        level(Instrument::SharedBuildQueueDepth, state.queue_depth()),
        level(Instrument::SharedBuildQueueAdmissions, 1),
        timed(Instrument::SharedBuildQueueWaitDuration, wait, Seq::empty()),
    ]);
    measurements
}

/// The numbers of shared builds were read anew.
pub fn record_shared_build_operational_counts(
    state: &mut GaugeState,
    queued: u64,
    running: u64,
    collecting: u64,
) -> (measurements: Vec<Measurement>)
    requires
        old(state).well_formed(),
    ensures
        final(state).well_formed(),
        final(state).same_keyed(*old(state)),
        final(state).sessions() == old(state).sessions(),
        final(state).queue_depth() == queued,
        final(state).monitoring() == old(state).monitoring(),
        final(state).callbacks() == old(state).callbacks(),
        readings(measurements@) == seq![
            level(Instrument::SharedBuildQueueDepth, queued),
            level(Instrument::SharedBuildActive, running),
            level(Instrument::SharedBuildCollecting, collecting),
        ],
{
    state.shared_build_queue_depth = queued;
    let measurements: Vec<Measurement> = vec![
        level_of(Instrument::SharedBuildQueueDepth, queued),
        level_of(Instrument::SharedBuildActive, running),
        level_of(Instrument::SharedBuildCollecting, collecting),
    ];
    assert(readings(measurements@) =~= seq![
        level(Instrument::SharedBuildQueueDepth, queued),
        level(Instrument::SharedBuildActive, running),
        level(Instrument::SharedBuildCollecting, collecting),
    ]);
    measurements
}

fn key_1(first: &str) -> (key: Vec<String>)
    ensures
        key_content(key@) == seq![first@],
{
    let key: Vec<String> = vec![first.to_owned()];
    assert(key_content(key@) =~= seq![first@]);
    key
}

fn key_3(first: &str, second: &str, third: &str) -> (key: Vec<String>)
    ensures
        key_content(key@) == seq![first@, second@, third@],
{
    let key: Vec<String> = vec![first.to_owned(), second.to_owned(), third.to_owned()];
    assert(key_content(key@) =~= seq![first@, second@, third@]);
    key
}

/// Keys of one text agree exactly when the texts do.
proof fn single_keys_differ(left: Seq<char>, right: Seq<char>)
    ensures
        seq![left] == seq![right] <==> left == right,
{
    assert(seq![left][0] == left);
    assert(seq![right][0] == right);
}

/// Keys of three texts agree exactly when all the texts do.
proof fn triple_keys_differ(
    a: Seq<char>,
    b: Seq<char>,
    c: Seq<char>,
    d: Seq<char>,
    e: Seq<char>,
    f: Seq<char>,
)
    ensures
        seq![a, b, c] == seq![d, e, f] <==> a == d && b == e && c == f,
{
    let left = seq![a, b, c];
    let right = seq![d, e, f];
    assert(left[0] == a && left[1] == b && left[2] == c);
    assert(right[0] == d && right[1] == e && right[2] == f);
}

impl GaugeState {
    fn set_permits(&mut self, backend: &str, count: u64)
        requires
            old(self).well_formed(),
        ensures
            final(self).well_formed(),
            final(self).same_single(*old(self)),
            final(self).permits(backend@) == count,
            forall|other: Seq<char>|
                other != backend@ ==> #[trigger] final(self).permits(other) == old(self).permits(
                    other,
                ),
            forall|direction: Seq<char>, purpose: Seq<char>, transport: Seq<char>|
                #[trigger] final(self).transfers(direction, purpose, transport) == old(self).transfers(direction, purpose, transport),
            forall|other: Seq<char>|
                #[trigger] final(self).pending(other) == old(self).pending(other),
    {
        self.backend_permits.set(key_1(backend), count);
        proof {
            assert forall|other: Seq<char>| other != backend@ implies #[trigger] self.permits(other)
                == old(self).permits(other) by {
                single_keys_differ(other, backend@);
            }
        }
    }

    fn set_pending(&mut self, backend: &str, count: u64)
        requires
            old(self).well_formed(),
        ensures
            final(self).well_formed(),
            final(self).same_single(*old(self)),
            final(self).pending(backend@) == count,
            forall|other: Seq<char>|
                other != backend@ ==> #[trigger] final(self).pending(other) == old(self).pending(
                    other,
                ),
            forall|direction: Seq<char>, purpose: Seq<char>, transport: Seq<char>|
                #[trigger] final(self).transfers(direction, purpose, transport) == old(self).transfers(direction, purpose, transport),
            forall|other: Seq<char>|
                #[trigger] final(self).permits(other) == old(self).permits(other),
    {
        self.nomad_pending.set(key_1(backend), count);
        proof {
            assert forall|other: Seq<char>| other != backend@ implies #[trigger] self.pending(other)
                == old(self).pending(other) by {
                single_keys_differ(other, backend@);
            }
        }
    }

    fn set_transfers(&mut self, direction: &str, purpose: &str, transport: &str, count: u64)
        requires
            old(self).well_formed(),
        ensures
            final(self).well_formed(),
            final(self).same_single(*old(self)),
            final(self).transfers(direction@, purpose@, transport@) == count,
            forall|d: Seq<char>, p: Seq<char>, t: Seq<char>|
                !(d == direction@ && p == purpose@ && t == transport@) ==> #[trigger] final(self).transfers(d, p, t) == old(self).transfers(d, p, t),
            forall|other: Seq<char>|
                #[trigger] final(self).permits(other) == old(self).permits(other),
            forall|other: Seq<char>|
                #[trigger] final(self).pending(other) == old(self).pending(other),
    {
        self.transfer_active.set(key_3(direction, purpose, transport), count);
        proof {
            assert forall|d: Seq<char>, p: Seq<char>, t: Seq<char>|
                !(d == direction@ && p == purpose@ && t == transport@) implies #[trigger] self.transfers(
                d,
                p,
                t,
            ) == old(self).transfers(d, p, t) by {
                triple_keys_differ(d, p, t, direction@, purpose@, transport@);
            }
        }
    }
}


/// A backend is configured; none of its permits is held.
pub fn backend_configured(
    state: &mut GaugeState,
    name: &str,
    kind: &str,
    limit: u64,
) -> (measurements: Vec<Measurement>)
    requires
        old(state).well_formed(),
    ensures
        final(state).well_formed(),
        final(state).same_single(*old(state)),
        final(state).permits(name@) == 0,
        forall|other: Seq<char>|
            other != name@ ==> #[trigger] final(state).permits(other) == old(state).permits(other),
        forall|d: Seq<char>, p: Seq<char>, t: Seq<char>|
            #[trigger] final(state).transfers(d, p, t) == old(state).transfers(d, p, t),
        forall|other: Seq<char>|
            #[trigger] final(state).pending(other) == old(state).pending(other),
        readings(measurements@) == seq![
            counted(Instrument::BackendPermitsActive, 0, spec_backend_attributes(name@, kind@)),
            counted(Instrument::BackendPermitsLimit, limit, spec_backend_attributes(name@, kind@)),
        ],
{
    let count: u64 = 0;
    state.set_permits(name, count);
    pair(
        count_of(Instrument::BackendPermitsActive, 0, backend_attributes(name, kind)),
        count_of(Instrument::BackendPermitsLimit, limit, backend_attributes(name, kind)),
    )
}

/// A permit of a backend is taken.
pub fn backend_permit_acquired(
    state: &mut GaugeState,
    name: &str,
    kind: &str,
    wait: Span,
) -> (measurements: Vec<Measurement>)
    requires
        old(state).well_formed(),
    ensures
        final(state).well_formed(),
        final(state).same_single(*old(state)),
        final(state).permits(name@) == up(old(state).permits(name@)),
        forall|other: Seq<char>|
            other != name@ ==> #[trigger] final(state).permits(other) == old(state).permits(other),
        forall|d: Seq<char>, p: Seq<char>, t: Seq<char>|
            #[trigger] final(state).transfers(d, p, t) == old(state).transfers(d, p, t),
        forall|other: Seq<char>|
            #[trigger] final(state).pending(other) == old(state).pending(other),
        readings(measurements@) == seq![
            counted(
                Instrument::BackendPermitsActive,
                up(old(state).permits(name@)),
                spec_backend_attributes(name@, kind@),
            ),
            timed(
                Instrument::BackendPermitWaitDuration,
                wait,
                spec_backend_attributes(name@, kind@),
            ),
        ],
{
    let count: u64 = state.backend_permits.get(&key_1(name)).saturating_add(1);
    state.set_permits(name, count);
    pair(
        count_of(Instrument::BackendPermitsActive, count, backend_attributes(name, kind)),
        time_of(Instrument::BackendPermitWaitDuration, wait, backend_attributes(name, kind)),
    )
}

/// A permit of a backend is given back.
pub fn backend_permit_released(
    state: &mut GaugeState,
    name: &str,
    kind: &str,
) -> (measurements: Vec<Measurement>)
    requires
        old(state).well_formed(),
    ensures
        final(state).well_formed(),
        final(state).same_single(*old(state)),
        final(state).permits(name@) == down(old(state).permits(name@)),
        forall|other: Seq<char>|
            other != name@ ==> #[trigger] final(state).permits(other) == old(state).permits(other),
        forall|d: Seq<char>, p: Seq<char>, t: Seq<char>|
            #[trigger] final(state).transfers(d, p, t) == old(state).transfers(d, p, t),
        forall|other: Seq<char>|
            #[trigger] final(state).pending(other) == old(state).pending(other),
        readings(measurements@) == seq![counted(Instrument::BackendPermitsActive, down(old(state).permits(name@)), spec_backend_attributes(name@, kind@))],
{
    let count: u64 = state.backend_permits.get(&key_1(name)).saturating_sub(1);
    state.set_permits(name, count);
    single(count_of(Instrument::BackendPermitsActive, count, backend_attributes(name, kind)))
}

/// The number of allocations that wait to be placed changes.
pub fn nomad_pending_changed(
    state: &mut GaugeState,
    backend: &str,
    delta: i64,
) -> (measurements: Vec<Measurement>)
    requires
        old(state).well_formed(),
    ensures
        final(state).well_formed(),
        final(state).same_single(*old(state)),
        final(state).pending(backend@) == moved(old(state).pending(backend@), delta),
        forall|other: Seq<char>|
            other != backend@ ==> #[trigger] final(state).pending(other) == old(state).pending(
                other,
            ),
        forall|d: Seq<char>, p: Seq<char>, t: Seq<char>|
            #[trigger] final(state).transfers(d, p, t) == old(state).transfers(d, p, t),
        forall|other: Seq<char>|
            #[trigger] final(state).permits(other) == old(state).permits(other),
        readings(measurements@) == seq![
            counted(
                Instrument::NomadPending,
                moved(old(state).pending(backend@), delta),
                spec_nomad_attributes(backend@),
            ),
        ],
{
    let count: u64 = move_count(state.nomad_pending.get(&key_1(backend)), delta);
    state.set_pending(backend, count);
    single(count_of(Instrument::NomadPending, count, nomad_attributes(backend)))
}

/// A transfer starts.
pub fn transfer_started(
    state: &mut GaugeState,
    direction: &str,
    purpose: &str,
    transport: &str,
) -> (measurements: Vec<Measurement>)
    requires
        old(state).well_formed(),
    ensures
        final(state).well_formed(),
        final(state).same_single(*old(state)),
        final(state).transfers(
            direction@,
            purpose@,
            transport@,
        ) == up(old(state).transfers(direction@, purpose@, transport@)),
        forall|d: Seq<char>, p: Seq<char>, t: Seq<char>|
            !(d == direction@ && p == purpose@ && t == transport@) ==> #[trigger] final(state).transfers(d, p, t) == old(state).transfers(d, p, t),
        forall|other: Seq<char>|
            #[trigger] final(state).permits(other) == old(state).permits(other),
        forall|other: Seq<char>|
            #[trigger] final(state).pending(other) == old(state).pending(other),
        readings(measurements@) == seq![
            counted(
                Instrument::TransferActive,
                up(old(state).transfers(direction@, purpose@, transport@)),
                spec_transfer_attributes(direction@, purpose@, transport@),
            ),
        ],
{
    let count: u64 = state.transfer_active.get(&key_3(direction, purpose, transport)).saturating_add(1);
    state.set_transfers(direction, purpose, transport, count);
    single(
        count_of(
            Instrument::TransferActive,
            count,
            transfer_attributes(direction, purpose, transport),
        ),
    )
}

/// A transfer is no longer going on.
pub fn transfer_left(
    state: &mut GaugeState,
    direction: &str,
    purpose: &str,
    transport: &str,
) -> (measurements: Vec<Measurement>)
    requires
        old(state).well_formed(),
    ensures
        final(state).well_formed(),
        final(state).same_single(*old(state)),
        final(state).transfers(
            direction@,
            purpose@,
            transport@,
        ) == down(old(state).transfers(direction@, purpose@, transport@)),
        forall|d: Seq<char>, p: Seq<char>, t: Seq<char>|
            !(d == direction@ && p == purpose@ && t == transport@) ==> #[trigger] final(state).transfers(d, p, t) == old(state).transfers(d, p, t),
        forall|other: Seq<char>|
            #[trigger] final(state).permits(other) == old(state).permits(other),
        forall|other: Seq<char>|
            #[trigger] final(state).pending(other) == old(state).pending(other),
        readings(measurements@) == seq![
            counted(
                Instrument::TransferActive,
                down(old(state).transfers(direction@, purpose@, transport@)),
                spec_transfer_attributes(direction@, purpose@, transport@),
            ),
        ],
{
    let count: u64 = state.transfer_active.get(&key_3(direction, purpose, transport)).saturating_sub(1);
    state.set_transfers(direction, purpose, transport, count);
    single(
        count_of(
            Instrument::TransferActive,
            count,
            transfer_attributes(direction, purpose, transport),
        ),
    )
}

/// A transfer has ended well.
pub fn transfer_finished(
    state: &mut GaugeState,
    direction: &str,
    purpose: &str,
    transport: &str,
    bytes: u64,
    duration: Span,
) -> (measurements: Vec<Measurement>)
    requires
        old(state).well_formed(),
    ensures
        final(state).well_formed(),
        final(state).same_single(*old(state)),
        final(state).transfers(
            direction@,
            purpose@,
            transport@,
        ) == down(old(state).transfers(direction@, purpose@, transport@)),
        forall|d: Seq<char>, p: Seq<char>, t: Seq<char>|
            !(d == direction@ && p == purpose@ && t == transport@) ==> #[trigger] final(state).transfers(d, p, t) == old(state).transfers(d, p, t),
        forall|other: Seq<char>|
            #[trigger] final(state).permits(other) == old(state).permits(other),
        forall|other: Seq<char>|
            #[trigger] final(state).pending(other) == old(state).pending(other),
        readings(measurements@) == seq![
            counted(
                Instrument::TransferActive,
                down(old(state).transfers(direction@, purpose@, transport@)),
                spec_transfer_attributes(direction@, purpose@, transport@),
            ),
            counted(
                Instrument::TransferObjects,
                1,
                spec_transfer_attributes(direction@, purpose@, transport@),
            ),
            counted(
                Instrument::TransferBytes,
                bytes,
                spec_transfer_attributes(direction@, purpose@, transport@),
            ),
            counted(
                Instrument::TransferObjectSize,
                bytes,
                spec_transfer_attributes(direction@, purpose@, transport@),
            ),
            timed(
                Instrument::TransferDuration,
                duration,
                spec_transfer_attributes(direction@, purpose@, transport@),
            ),
        ],
{
    let mut measurements = transfer_left(state, direction, purpose, transport);
    extend(
        &mut measurements,
        pair(
            count_of(
                Instrument::TransferObjects,
                1,
                transfer_attributes(direction, purpose, transport),
            ),
            count_of(
                Instrument::TransferBytes,
                bytes,
                transfer_attributes(direction, purpose, transport),
            ),
        ),
    );
    extend(
        &mut measurements,
        pair(
            count_of(
                Instrument::TransferObjectSize,
                bytes,
                transfer_attributes(direction, purpose, transport),
            ),
            time_of(
                Instrument::TransferDuration,
                duration,
                transfer_attributes(direction, purpose, transport),
            ),
        ),
    );
    assert(readings(measurements@) =~= seq![
            counted(
                Instrument::TransferActive,
                down(old(state).transfers(direction@, purpose@, transport@)),
                spec_transfer_attributes(direction@, purpose@, transport@),
            ),
            counted(
                Instrument::TransferObjects,
                1,
                spec_transfer_attributes(direction@, purpose@, transport@),
            ),
            counted(
                Instrument::TransferBytes,
                bytes,
                spec_transfer_attributes(direction@, purpose@, transport@),
            ),
            counted(
                Instrument::TransferObjectSize,
                bytes,
                spec_transfer_attributes(direction@, purpose@, transport@),
            ),
            timed(
                Instrument::TransferDuration,
                duration,
                spec_transfer_attributes(direction@, purpose@, transport@),
            ),
    ]);
    measurements
}

/// A transfer has failed.
pub fn transfer_failed(
    state: &mut GaugeState,
    direction: &str,
    purpose: &str,
    transport: &str,
    failure_class: &str,
    duration: Span,
) -> (measurements: Vec<Measurement>)
    requires
        old(state).well_formed(),
    ensures
        final(state).well_formed(),
        final(state).same_single(*old(state)),
        final(state).transfers(
            direction@,
            purpose@,
            transport@,
        ) == down(old(state).transfers(direction@, purpose@, transport@)),
        forall|d: Seq<char>, p: Seq<char>, t: Seq<char>|
            !(d == direction@ && p == purpose@ && t == transport@) ==> #[trigger] final(state).transfers(d, p, t) == old(state).transfers(d, p, t),
        forall|other: Seq<char>|
            #[trigger] final(state).permits(other) == old(state).permits(other),
        forall|other: Seq<char>|
            #[trigger] final(state).pending(other) == old(state).pending(other),
        ({
            let failure = spec_transfer_failure_attributes(
                direction@,
                purpose@,
                transport@,
                failure_class@,
            );
            readings(measurements@) == seq![
            counted(
                Instrument::TransferActive,
                down(old(state).transfers(direction@, purpose@, transport@)),
                spec_transfer_attributes(direction@, purpose@, transport@),
            ),
                counted(Instrument::TransferFailures, 1, failure),
                timed(Instrument::TransferDuration, duration, failure),
            ]
        }),
{
    let mut measurements = transfer_left(state, direction, purpose, transport);
    extend(
        &mut measurements,
        pair(
            count_of(
                Instrument::TransferFailures,
                1,
                transfer_failure_attributes(direction, purpose, transport, failure_class),
            ),
            time_of(
                Instrument::TransferDuration,
                duration,
                transfer_failure_attributes(direction, purpose, transport, failure_class),
            ),
        ),
    );
    assert(readings(measurements@) =~= ({
        let failure = spec_transfer_failure_attributes(
            direction@,
            purpose@,
            transport@,
            failure_class@,
        );
        seq![
            counted(
                Instrument::TransferActive,
                down(old(state).transfers(direction@, purpose@, transport@)),
                spec_transfer_attributes(direction@, purpose@, transport@),
            ),
            counted(Instrument::TransferFailures, 1, failure),
            timed(Instrument::TransferDuration, duration, failure),
        ]
    }));
    measurements
}

/// A level that goes up and then down again is where it was, unless it was at the largest number.
pub proof fn up_and_down_cancel(count: u64)
    requires
        count < u64::MAX,
    ensures
        down(up(count)) == count,
        moved(moved(count, 1), -1i64 as i64) == count,
{
}

/// The readings that show the instruments of the service part at work.
pub open spec fn service_smoke_readings() -> Seq<Reading> {
    seq![
        level(Instrument::ServiceSessionLimit, 8),
    ]
        + seq![
        level(Instrument::ServiceSessions, 1),
    ]
        + seq![
        level(Instrument::ServiceSessions, 0),
    ]
        + seq![
        counted(
            Instrument::BuildRequests,
            1,
            seq![
                text_content("build_mode"@, "normal"@),
                ("fixed_output"@, AttributeContent::Flag(false)),
            ],
        ),
        counted(
            Instrument::BuildOutputCount,
            1,
            seq![
                text_content("build_mode"@, "normal"@),
                ("fixed_output"@, AttributeContent::Flag(false)),
            ],
        ),
    ]
        + seq![
        timed(
            Instrument::BuildRequestDuration,
            Span::spec_milliseconds(20),
            spec_outcome_attributes("succeeded"@, None),
        ),
    ]
        + seq![
        counted(Instrument::BuildExecutions, 1, spec_outcome_attributes("succeeded"@, None)),
        timed(
            Instrument::BuildExecutionDuration,
            Span::spec_milliseconds(15),
            spec_outcome_attributes("succeeded"@, None),
        ),
    ]
        + seq![
        level(Instrument::SharedBuildLeaders, 1),
    ]
        + seq![
        level(Instrument::SharedBuildFollowers, 1),
    ]
        + seq![
        level(Instrument::SharedBuildReusedResults, 1),
    ]
        + seq![
        level(Instrument::SharedBuildQueueDepth, 1),
        level(Instrument::SharedBuildActive, 1),
        level(Instrument::SharedBuildCollecting, 1),
    ]
        + seq![
        level(Instrument::SharedBuildQueueDepth, 2),
    ]
        + seq![
        level(Instrument::SharedBuildQueueDepth, 1),
        level(Instrument::SharedBuildQueueAdmissions, 1),
        timed(Instrument::SharedBuildQueueWaitDuration, Span::spec_milliseconds(5), Seq::empty()),
    ]
}

fn service_smoke() -> (measurements: Vec<Measurement>)
    ensures
        readings(measurements@) == service_smoke_readings(),
{
    let mut state = GaugeState::new();
    let mut measurements = record_service_session_limit(8);
    let next = session_started(&mut state);
    extend(&mut measurements, next);
    let next = session_finished(&mut state);
    extend(&mut measurements, next);
    let next = build_admitted("normal", false, 1);
    extend(&mut measurements, next);
    let next = build_request_finished(Span::from_milliseconds(20), "succeeded", None);
    extend(&mut measurements, next);
    let next = build_execution_finished(Span::from_milliseconds(15), "succeeded", None);
    extend(&mut measurements, next);
    let next = shared_build_leader();
    extend(&mut measurements, next);
    let next = shared_build_follower();
    extend(&mut measurements, next);
    let next = shared_build_reused_result();
    extend(&mut measurements, next);
    let next = record_shared_build_operational_counts(&mut state, 1, 1, 1);
    extend(&mut measurements, next);
    let next = shared_build_enqueued(&mut state);
    extend(&mut measurements, next);
    let next = shared_build_admitted(&mut state, Span::from_milliseconds(5));
    extend(&mut measurements, next);
    measurements
}

/// The readings that show the instruments of the backend part at work.
pub open spec fn backend_smoke_readings() -> Seq<Reading> {
    seq![
        counted(Instrument::BackendPermitsActive, 0, spec_backend_attributes("smoke"@, "local"@)),
        counted(Instrument::BackendPermitsLimit, 2, spec_backend_attributes("smoke"@, "local"@)),
    ]
        + seq![
        counted(
            Instrument::BackendSelections,
            1,
            selection_attributes(Some("smoke"@), Some("local"@), "selected"@, None),
        ),
    ]
        + seq![
        counted(Instrument::BackendPermitsActive, 1, spec_backend_attributes("smoke"@, "local"@)),
        timed(
            Instrument::BackendPermitWaitDuration,
            Span::spec_milliseconds(2),
            spec_backend_attributes("smoke"@, "local"@),
        ),
    ]
        + seq![
        counted(Instrument::BackendPermitsActive, 0, spec_backend_attributes("smoke"@, "local"@)),
    ]
        + seq![
        counted(
            Instrument::BackendExecutions,
            1,
            spec_execution_attributes("smoke"@, "local"@, "succeeded"@, None),
        ),
        timed(
            Instrument::BackendExecutionDuration,
            Span::spec_milliseconds(10),
            spec_execution_attributes("smoke"@, "local"@, "succeeded"@, None),
        ),
    ]
        + seq![
        counted(Instrument::CacheSubstitutions, 1, spec_outcome_attributes("miss"@, None)),
        timed(
            Instrument::CacheSubstitutionDuration,
            Span::spec_milliseconds(1),
            spec_outcome_attributes("miss"@, None),
        ),
    ]
        + seq![
        counted(Instrument::CachePublications, 1, spec_outcome_attributes("succeeded"@, None)),
        timed(
            Instrument::CachePublicationDuration,
            Span::spec_milliseconds(1),
            spec_outcome_attributes("succeeded"@, None),
        ),
    ]
        + seq![
        counted(
            Instrument::StoreValidations,
            1,
            spec_validation_attributes("succeeded"@, "input_addressed"@),
        ),
        timed(
            Instrument::StoreValidationDuration,
            Span::spec_milliseconds(1),
            spec_validation_attributes("succeeded"@, "input_addressed"@),
        ),
    ]
}

fn backend_smoke() -> (measurements: Vec<Measurement>)
    ensures
        readings(measurements@) == backend_smoke_readings(),
{
    let mut state = GaugeState::new();
    let mut measurements = backend_configured(&mut state, "smoke", "local", 2);
    let next = backend_selection(Some("smoke"), Some("local"), "selected", None);
    extend(&mut measurements, next);
    let next = backend_permit_acquired(&mut state, "smoke", "local", Span::from_milliseconds(2));
    extend(&mut measurements, next);
    let next = backend_permit_released(&mut state, "smoke", "local");
    extend(&mut measurements, next);
    let next = backend_execution_finished(
        "smoke",
        "local",
        Span::from_milliseconds(10),
        "succeeded",
        None,
    );
    extend(&mut measurements, next);
    let next = cache_substitution_finished(Span::from_milliseconds(1), "miss");
    extend(&mut measurements, next);
    let next = cache_publication_finished(Span::from_milliseconds(1), "succeeded");
    extend(&mut measurements, next);
    let next = store_validation_finished(
        Span::from_milliseconds(1),
        "succeeded",
        "input_addressed",
    );
    extend(&mut measurements, next);
    measurements
}

/// The readings that show the instruments of the transfer part at work.
pub open spec fn transfer_smoke_readings() -> Seq<Reading> {
    seq![
        counted(
            Instrument::TransferActive,
            1,
            spec_transfer_attributes("outbound"@, "output"@, "smoke"@),
        ),
    ]
        + seq![
        counted(
            Instrument::TransferActive,
            0,
            spec_transfer_attributes("outbound"@, "output"@, "smoke"@),
        ),
        counted(
            Instrument::TransferObjects,
            1,
            spec_transfer_attributes("outbound"@, "output"@, "smoke"@),
        ),
        counted(
            Instrument::TransferBytes,
            1024,
            spec_transfer_attributes("outbound"@, "output"@, "smoke"@),
        ),
        counted(
            Instrument::TransferObjectSize,
            1024,
            spec_transfer_attributes("outbound"@, "output"@, "smoke"@),
        ),
        timed(
            Instrument::TransferDuration,
            Span::spec_milliseconds(1),
            spec_transfer_attributes("outbound"@, "output"@, "smoke"@),
        ),
    ]
        + seq![
        counted(
            Instrument::TransferActive,
            1,
            spec_transfer_attributes("inbound"@, "output"@, "smoke"@),
        ),
    ]
        + seq![
        counted(
            Instrument::TransferActive,
            0,
            spec_transfer_attributes("inbound"@, "output"@, "smoke"@),
        ),
        counted(
            Instrument::TransferFailures,
            1,
            spec_transfer_failure_attributes("inbound"@, "output"@, "smoke"@, "protocol"@),
        ),
        timed(
            Instrument::TransferDuration,
            Span::spec_milliseconds(1),
            spec_transfer_failure_attributes("inbound"@, "output"@, "smoke"@, "protocol"@),
        ),
    ]
        + seq![
        counted(Instrument::TransferRejections, 1, spec_rejection_attributes("inbound"@, "limit"@)),
    ]
        + seq![
        counted(Instrument::RecoveryAttempts, 1, spec_operation_attributes("startup"@)),
    ]
        + recovery_readings("startup"@, Span::spec_milliseconds(2), 1, 1, 1)
}

fn transfer_smoke() -> (measurements: Vec<Measurement>)
    ensures
        readings(measurements@) == transfer_smoke_readings(),
{
    let mut state = GaugeState::new();
    let mut measurements = transfer_started(&mut state, "outbound", "output", "smoke");
    let next = transfer_finished(
        &mut state,
        "outbound",
        "output",
        "smoke",
        1024,
        Span::from_milliseconds(1),
    );
    extend(&mut measurements, next);
    let next = transfer_started(&mut state, "inbound", "output", "smoke");
    extend(&mut measurements, next);
    let next = transfer_failed(
        &mut state,
        "inbound",
        "output",
        "smoke",
        "protocol",
        Span::from_milliseconds(1),
    );
    extend(&mut measurements, next);
    let next = transfer_rejected("inbound", "limit");
    extend(&mut measurements, next);
    let next = recovery_started("startup");
    extend(&mut measurements, next);
    let next = recovery_finished("startup", Span::from_milliseconds(2), 1, 1, 1);
    extend(&mut measurements, next);
    measurements
}

/// The readings that show the instruments of the recovery part at work.
pub open spec fn recovery_smoke_readings() -> Seq<Reading> {
    seq![
        level(Instrument::RecoveryMonitoring, 1),
    ]
        + seq![
        level(Instrument::RecoveryMonitoring, 0),
    ]
        + seq![
        counted(
            Instrument::NomadSubmissions,
            1,
            spec_nomad_outcome_attributes("smoke"@, "succeeded"@),
        ),
        timed(
            Instrument::NomadSubmissionDuration,
            Span::spec_milliseconds(1),
            spec_nomad_outcome_attributes("smoke"@, "succeeded"@),
        ),
    ]
        + seq![
        counted(Instrument::NomadPending, 1, spec_nomad_attributes("smoke"@)),
    ]
        + seq![
        timed(
            Instrument::NomadPlacementDuration,
            Span::spec_milliseconds(3),
            spec_nomad_attributes("smoke"@),
        ),
    ]
        + seq![
        counted(Instrument::NomadPending, 0, spec_nomad_attributes("smoke"@)),
    ]
        + seq![
        counted(
            Instrument::NomadExecutions,
            1,
            spec_nomad_outcome_attributes("smoke"@, "succeeded"@),
        ),
        timed(
            Instrument::NomadExecutionDuration,
            Span::spec_milliseconds(9),
            spec_nomad_outcome_attributes("smoke"@, "succeeded"@),
        ),
    ]
        + seq![
        level(Instrument::NomadCallbackConnections, 1),
    ]
        + seq![
        level(Instrument::NomadCallbackConnections, 0),
        counted(Instrument::NomadCallbackOutcomes, 1, spec_outcome_attributes("succeeded"@, None)),
    ]
}

fn recovery_smoke() -> (measurements: Vec<Measurement>)
    ensures
        readings(measurements@) == recovery_smoke_readings(),
{
    let mut state = GaugeState::new();
    let mut measurements = recovery_monitoring_changed(&mut state, 1);
    let next = recovery_monitoring_changed(&mut state, -1);
    extend(&mut measurements, next);
    let next = nomad_submission_finished("smoke", Span::from_milliseconds(1), "succeeded");
    extend(&mut measurements, next);
    let next = nomad_pending_changed(&mut state, "smoke", 1);
    extend(&mut measurements, next);
    let next = nomad_placed("smoke", Span::from_milliseconds(3));
    extend(&mut measurements, next);
    let next = nomad_pending_changed(&mut state, "smoke", -1);
    extend(&mut measurements, next);
    let next = nomad_execution_finished("smoke", Span::from_milliseconds(9), "succeeded");
    extend(&mut measurements, next);
    let next = nomad_callback_started(&mut state);
    extend(&mut measurements, next);
    let next = nomad_callback_finished(&mut state, "succeeded");
    extend(&mut measurements, next);
    measurements
}

/// Readings of every instrument, with which an operator can see that they arrive.
pub fn emit_smoke_metrics() -> (measurements: Vec<Measurement>)
    ensures
        readings(measurements@) == service_smoke_readings() + backend_smoke_readings()
            + transfer_smoke_readings() + recovery_smoke_readings(),
{
    let mut measurements = service_smoke();
    extend(&mut measurements, backend_smoke());
    extend(&mut measurements, transfer_smoke());
    extend(&mut measurements, recovery_smoke());
    measurements
}

} // verus!
