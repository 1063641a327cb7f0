//! The recorder: whether a message is recorded, under which name, and with
//! which content.

use vstd::pervasive::unreached;
use vstd::prelude::*;
use vstd::string::StringExecFns;
use crate::clock::{format_minute, minute_stamp, utc_now, UtcMinute, MINUTE_DESCRIPTION};
use crate::sequence::SequenceCounter;
use crate::text::{push_zero_padded, readable, replace_terminators, zero_padded};

verus! {

/// The environment variable that names the directory under which sessions
/// are recorded. Unset or empty, nothing is recorded.
pub const RECORDING_DIR_VARIABLE: &'static str = "IBAPI_RECORDING_DIR";

/// The number of characters to which a sequence number is padded in a file
/// name.
pub const ID_WIDTH: usize = 4;

/// The direction of a message: a request goes out to the gateway, a response
/// comes in from it.
#[derive(Clone, Copy, Debug, PartialEq, Eq, Structural)]
pub enum Direction {
    Request,
    Response,
}

/// Why a recorder could not be set up.
#[derive(Clone, Copy, Debug, PartialEq, Eq, Structural)]
pub enum RecorderInitError {
    /// The time at which the session was to begin is no minute of the
    /// calendar, so that it names no directory.
    Timestamp,
}

/// What a recorder is, as a mathematical value.
pub struct RecorderConfig {
    pub enabled: bool,
    pub storage_root: Seq<char>,
}

/// What a recorded artifact is, as a mathematical value.
pub struct ArtifactView {
    pub sequence_id: nat,
    pub direction: Direction,
    pub file: Seq<char>,
    pub payload: Seq<char>,
}

/// The configuration that records nothing.
pub open spec fn disabled() -> RecorderConfig {
    RecorderConfig { enabled: false, storage_root: Seq::empty() }
}

/// Whether the configured value asks for no recording: it is missing or
/// empty.
pub open spec fn is_unset(value: Option<String>) -> bool {
    value matches Some(root) ==> root@.len() == 0
}

/// The directory of one session: under `root`, named by the minute in which
/// the session began.
pub open spec fn run_directory(root: Seq<char>, stamp: Seq<char>) -> Seq<char> {
    root + seq!['/'] + stamp
}

/// The configuration that records into the directory of the session that
/// began at `stamp` under `root`.
pub open spec fn recording_into(root: Seq<char>, stamp: Seq<char>) -> RecorderConfig {
    RecorderConfig { enabled: true, storage_root: run_directory(root, stamp) }
}

/// What the configured value and the name of the session's minute, if it
/// has one, make of a recorder: disabled where the value is unset, else
/// recording under the value, or failed for want of a name.
pub open spec fn configured(value: Option<String>, stamp: Option<Seq<char>>) -> Result<
    RecorderConfig,
    RecorderInitError,
> {
    if is_unset(value) {
        Ok(disabled())
    } else {
        match stamp {
            Some(name) => Ok(recording_into(value->0@, name)),
            None => Err(RecorderInitError::Timestamp),
        }
    }
}

/// The end of a file name, which tells the direction of the message.
pub open spec fn file_suffix(direction: Direction) -> Seq<char> {
    match direction {
        Direction::Request => "-request.msg"@,
        Direction::Response => "-response.msg"@,
    }
}

/// The file of the artifact with number `id`: in the directory `root`, the
/// number padded with zeros to four digits, then the suffix of the
/// direction.
pub open spec fn artifact_file(root: Seq<char>, id: nat, direction: Direction) -> Seq<char> {
    root + seq!['/'] + zero_padded(id, ID_WIDTH as nat) + file_suffix(direction)
}

/// The artifact that records `message` under the number `id`.
pub open spec fn artifact_of(
    config: RecorderConfig,
    id: nat,
    direction: Direction,
    message: Seq<char>,
) -> ArtifactView {
    ArtifactView {
        sequence_id: id,
        direction,
        file: artifact_file(config.storage_root, id, direction),
        payload: readable(message),
    }
}

/// One recording call, as a function of the configuration and of the number
/// that the counter is about to hand out: the artifact to write, if any, and
/// the number that the counter hands out next. An enabled recorder uses the
/// number and moves the counter up by one. A disabled recorder writes
/// nothing and leaves the counter alone.
pub open spec fn record_step(
    config: RecorderConfig,
    upcoming: nat,
    direction: Direction,
    message: Seq<char>,
) -> (Option<ArtifactView>, nat) {
    if config.enabled {
        (Some(artifact_of(config, upcoming, direction, message)), upcoming + 1)
    } else {
        (None, upcoming)
    }
}

/// One message, as it was recorded: the file to write and what to write
/// into it.
#[derive(Debug)]
pub struct RecordedArtifact {
    pub sequence_id: usize,
    pub direction: Direction,
    pub file: String,
    pub payload: String,
}

impl View for RecordedArtifact {
    type V = ArtifactView;

    open spec fn view(&self) -> ArtifactView {
        ArtifactView {
            sequence_id: self.sequence_id as nat,
            direction: self.direction,
            file: self.file@,
            payload: self.payload@,
        }
    }
}

/// The artifact of a recording call as a mathematical value.
pub open spec fn recorded(artifact: Option<RecordedArtifact>) -> Option<ArtifactView> {
    match artifact {
        Some(a) => Some(a@),
        None => None,
    }
}

/// Records the messages of a session, or, disabled, records nothing.
#[derive(Debug)]
pub struct MessageRecorder {
    enabled: bool,
    recording_dir: String,
}

impl View for MessageRecorder {
    type V = RecorderConfig;

    closed spec fn view(&self) -> RecorderConfig {
        RecorderConfig { enabled: self.enabled, storage_root: self.recording_dir@ }
    }
}

impl Clone for MessageRecorder {
    /// A second handle on the same configuration.
    fn clone(&self) -> (copy: MessageRecorder)
        ensures
            copy@ == self@,
    {
        MessageRecorder { enabled: self.enabled, recording_dir: self.recording_dir.clone() }
    }
}

/// The result of setting up a recorder as a mathematical value.
pub open spec fn outcome(recorder: Result<MessageRecorder, RecorderInitError>) -> Result<
    RecorderConfig,
    RecorderInitError,
> {
    match recorder {
        Ok(r) => Ok(r@),
        Err(e) => Err(e),
    }
}

impl MessageRecorder {
    /// A recorder that writes into `recording_dir` if `enabled`.
    pub fn new(enabled: bool, recording_dir: String) -> (recorder: MessageRecorder)
        ensures
            recorder@ == (RecorderConfig { enabled, storage_root: recording_dir@ }),
    {
        MessageRecorder { enabled, recording_dir }
    }

    /// Whether the recorder records.
    pub fn enabled(&self) -> (enabled: bool)
        ensures
            enabled == self@.enabled,
    {
        self.enabled
    }

    /// The directory into which the recorder writes. The caller creates it
    /// before the first message is recorded.
    pub fn recording_dir(&self) -> (dir: &str)
        ensures
            dir@ == self@.storage_root,
    {
        self.recording_dir.as_str()
    }

    /// The recorder for the configured `value` of the recording directory
    /// (see [`RECORDING_DIR_VARIABLE`]), at the current time. Missing or
    /// empty, the value gives a disabled recorder, and the clock is not
    /// read. Otherwise the recorder is enabled and writes into the directory
    /// under `value` that is named by the current minute.
    pub fn from_env(value: Option<String>) -> (recorder: MessageRecorder)
        ensures
            recorder@.enabled == !is_unset(value),
            exists|now: UtcMinute|
                now.on_calendar() && Ok::<RecorderConfig, RecorderInitError>(recorder@)
                    == configured(value, Some(#[trigger] minute_stamp(now))),
    {
        let ghost epoch = UtcMinute { year: 1970, month: 1, day: 1, hour: 0, minute: 0 };
        assert(epoch.on_calendar());
        match value {
            Some(root) => {
                if root.as_str().is_empty() {
                    assert(configured(value, Some(minute_stamp(epoch))) == Ok::<
                        RecorderConfig,
                        RecorderInitError,
                    >(disabled()));
                    MessageRecorder::new(false, String::new())
                } else {
                    let now = utc_now();
                    match MessageRecorder::at(Some(root), &now) {
                        Ok(recorder) => recorder,
                        Err(_) => unreached(),
                    }
                }
            },
            None => {
                assert(configured(value, Some(minute_stamp(epoch))) == Ok::<
                    RecorderConfig,
                    RecorderInitError,
                >(disabled()));
                MessageRecorder::new(false, String::new())
            },
        }
    }

    /// The recorder for the configured `value` of the recording directory,
    /// for a session that begins at `now`. Missing or empty, the value gives
    /// a disabled recorder. Otherwise a minute of the calendar gives an
    /// enabled recorder in the directory under `value` that the minute
    /// names, and any other `now` the error `Timestamp`.
    pub fn at(value: Option<String>, now: &UtcMinute) -> (recorder: Result<MessageRecorder, RecorderInitError>)
        ensures
            outcome(recorder) == configured(
                value,
                if now.on_calendar() {
                    Some(minute_stamp(*now))
                } else {
                    None
                },
            ),
    {
        match value {
            Some(root) => {
                if root.as_str().is_empty() {
                    Ok(MessageRecorder::new(false, String::new()))
                } else {
                    let stamp = format_minute(now, MINUTE_DESCRIPTION);
                    MessageRecorder::in_run_directory(root.as_str(), stamp)
                }
            },
            None => Ok(MessageRecorder::new(false, String::new())),
        }
    }

    /// The enabled recorder of the session under `root` whose name is
    /// `stamp`; the error `Timestamp` where there is no name.
    pub fn in_run_directory(root: &str, stamp: Option<String>) -> (recorder: Result<MessageRecorder, RecorderInitError>)
        ensures
            outcome(recorder) == match stamp {
                Some(name) => Ok::<RecorderConfig, RecorderInitError>(recording_into(root@, name@)),
                None => Err(RecorderInitError::Timestamp),
            },
    {
        match stamp {
            Some(name) => {
                let mut dir = String::from_str(root);
                dir.push('/');
                dir.append(name.as_str());
                assert(dir@ =~= run_directory(root@, name@));
                Ok(MessageRecorder::new(true, dir))
            },
            None => Err(RecorderInitError::Timestamp),
        }
    }

    /// The file of a request with the number `record_id`.
    pub fn request_file(&self, record_id: usize) -> (file: String)
        ensures
            file@ == artifact_file(self@.storage_root, record_id as nat, Direction::Request),
    {
        self.file_of(record_id, Direction::Request)
    }

    /// The file of a response with the number `record_id`.
    pub fn response_file(&self, record_id: usize) -> (file: String)
        ensures
            file@ == artifact_file(self@.storage_root, record_id as nat, Direction::Response),
    {
        self.file_of(record_id, Direction::Response)
    }

    /// The file of the message with the number `record_id` in the given
    /// direction.
    pub fn file_of(&self, record_id: usize, direction: Direction) -> (file: String)
        ensures
            file@ == artifact_file(self@.storage_root, record_id as nat, direction),
    {
        let mut file = self.recording_dir.clone();
        file.push('/');
        push_zero_padded(&mut file, record_id, ID_WIDTH);
        match direction {
            Direction::Request => file.append("-request.msg"),
            Direction::Response => file.append("-response.msg"),
        }
        file
    }

    /// Records a message in the given direction. An enabled recorder draws
    /// the next number from `sequence` and returns the artifact to write. A
    /// disabled one returns `None` and draws nothing. An enabled recorder
    /// needs a counter that has a number left.
    pub fn record(&self, sequence: &mut SequenceCounter, direction: Direction, message: &str) -> (artifact: Option<RecordedArtifact>)
        requires
            self@.enabled ==> old(sequence).has_next(),
        ensures
            (recorded(artifact), final(sequence).upcoming()) == record_step(
                self@,
                old(sequence).upcoming(),
                direction,
                message@,
            ),
    {
        if !self.enabled {
            return None;
        }
        let sequence_id = sequence.next_id();
        let file = self.file_of(sequence_id, direction);
        let payload = replace_terminators(message);
        Some(RecordedArtifact { sequence_id, direction, file, payload })
    }

    /// Records an outbound message, given in its raw encoding.
    pub fn record_request(&self, sequence: &mut SequenceCounter, message: &str) -> (artifact: Option<RecordedArtifact>)
        requires
            self@.enabled ==> old(sequence).has_next(),
        ensures
            (recorded(artifact), final(sequence).upcoming()) == record_step(
                self@,
                old(sequence).upcoming(),
                Direction::Request,
                message@,
            ),
    {
        self.record(sequence, Direction::Request, message)
    }

    /// Records an inbound message, given in its raw encoding.
    pub fn record_response(&self, sequence: &mut SequenceCounter, message: &str) -> (artifact: Option<RecordedArtifact>)
        requires
            self@.enabled ==> old(sequence).has_next(),
        ensures
            (recorded(artifact), final(sequence).upcoming()) == record_step(
                self@,
                old(sequence).upcoming(),
                Direction::Response,
                message@,
            ),
    {
        self.record(sequence, Direction::Response, message)
    }
}

} // verus!
