//! The two conversations with the sensor: bringing it up and reading its angles. Each is a
//! sequence of requests; the owner of the bus carries a request out and hands back the reply.
use vstd::prelude::*;

use crate::frame;
use crate::frame::{parse_read_response, response_data, return_status, SensorError};
use crate::frame::{
    SCL3300_ENABLE_ANGLE_OUTPUTS, SCL3300_MODE_1, SCL3300_READ_ANG_X, SCL3300_READ_ANG_Y,
    SCL3300_READ_ANG_Z, SCL3300_READ_STATUS, SCL3300_READ_WHOAMI, SCL3300_SW_RESET,
};

verus! {

/// The raw angles of one reading.
#[derive(Clone, Copy, Debug, PartialEq, Eq, Structural)]
pub struct AngleReadings {
    pub x_raw: i16,
    pub y_raw: i16,
    pub z_raw: i16,
}

/// What the sensor has to be given next.
#[derive(Clone, Copy, Debug, PartialEq, Eq, Structural)]
pub enum Request {
    /// Exchange this frame.
    Transfer(u32),
    /// Let this many milliseconds pass.
    Wait(u64),
}

/// How a request was answered.
#[derive(Clone, Copy, Debug, PartialEq, Eq)]
pub enum Reply {
    /// The frame that came back, or why none was accepted.
    Response(Result<u32, SensorError>),
    /// The time has passed.
    Waited,
}

/// The reply is one that the request can have.
pub open spec fn answers(reply: Reply, request: Request) -> bool {
    reply is Response <==> request is Transfer
}

/// The requests that bring the sensor up, in order.
pub open spec fn startup_script() -> Seq<Request> {
    seq![
        Request::Transfer(SCL3300_SW_RESET),
        Request::Wait(1),
        Request::Transfer(SCL3300_MODE_1),
        Request::Transfer(SCL3300_ENABLE_ANGLE_OUTPUTS),
        Request::Wait(25),
        Request::Transfer(SCL3300_READ_STATUS),
        Request::Transfer(SCL3300_READ_STATUS),
        Request::Transfer(SCL3300_READ_STATUS),
        Request::Transfer(SCL3300_READ_WHOAMI),
        Request::Transfer(SCL3300_READ_WHOAMI),
    ]
}

/// The place in the script whose response carries the status that counts: the first two
/// responses still hold what the sensor had pending.
pub open spec fn status_place() -> nat {
    7
}

/// The place in the script whose response carries the identification.
pub open spec fn whoami_place() -> nat {
    9
}

/// What the reply to the request at `place` of the script settles, if it settles the startup.
pub open spec fn startup_verdict(place: nat, reply: Reply) -> Option<Result<(), SensorError>> {
    match reply {
        Reply::Response(Err(error)) => Some(Err(error)),
        Reply::Response(Ok(response)) => if place == status_place() && frame::status_field(response)
            != 1 {
            Some(Err(SensorError::StartupStatus(frame::status_field(response) as u8)))
        } else if place == whoami_place() {
            if frame::data_field(response) % 0x100 == 0xC1 {
                Some(Ok(()))
            } else {
                Some(Err(SensorError::WhoAmI(frame::data_field(response) as u16)))
            }
        } else {
            None
        },
        Reply::Waited => None,
    }
}

/// How the startup goes on after a reply.
#[derive(Clone, Copy, Debug, PartialEq, Eq)]
pub enum StartupProgress {
    /// Carry out this request next.
    Next(Request),
    /// The startup is over.
    Finished(Result<(), SensorError>),
}

/// A startup of the sensor under way.
#[derive(Clone, Copy, Debug, PartialEq, Eq, Structural)]
pub struct Startup {
    /// The place in the script of the request that is out.
    pub place: u8,
}

impl Startup {
    /// The place in the script of the request that is out.
    pub open spec fn place(self) -> nat {
        self.place as nat
    }

    /// The startup stands at a request of the script.
    pub open spec fn wf(self) -> bool {
        self.place() < startup_script().len()
    }

    /// The request that is out.
    pub open spec fn pending(self) -> Request {
        startup_script()[self.place() as int]
    }

    /// Starts over, with the first request of the script.
    pub fn begin() -> (started: (Startup, Request))
        ensures
            started.0.wf(),
            started.0.place() == 0,
            started.1 == started.0.pending(),
    {
        (Startup { place: 0 }, Request::Transfer(SCL3300_SW_RESET))
    }

    /// Whether the request that is out is a transfer.
    pub fn awaits_transfer(&self) -> (transfer: bool)
        requires
            self.wf(),
        ensures
            transfer == (self.pending() is Transfer),
    {
        self.place != 1 && self.place != 4
    }

    /// Takes the reply to the request that is out. The startup ends with the first response
    /// that was not accepted, with a status other than "normal operation", or with the
    /// identification, which has to be that of an SCL3300; else the next request follows.
    pub fn advance(&mut self, reply: Reply) -> (progress: StartupProgress)
        requires
            old(self).wf(),
            answers(reply, old(self).pending()),
        ensures
            final(self).wf(),
            match startup_verdict(old(self).place(), reply) {
                Some(verdict) => {
                    &&& progress == StartupProgress::Finished(verdict)
                    &&& *final(self) == *old(self)
                },
                None => {
                    &&& final(self).place() == old(self).place() + 1
                    &&& progress == StartupProgress::Next(final(self).pending())
                },
            },
    {
        if let Reply::Response(outcome) = reply {
            match outcome {
                Err(error) => {
                    return StartupProgress::Finished(Err(error));
                },
                Ok(response) => {
                    if self.place == 7 {
                        let rs: u8 = return_status(response);
                        if rs != 0b01 {
                            return StartupProgress::Finished(Err(SensorError::StartupStatus(rs)));
                        }
                    }
                    if self.place == 9 {
                        let whoami: u16 = response_data(response);
                        assert(whoami & 0x00FF == whoami % 0x100) by (bit_vector);
                        if (whoami & 0x00FF) != 0x00C1 {
                            return StartupProgress::Finished(Err(SensorError::WhoAmI(whoami)));
                        }
                        return StartupProgress::Finished(Ok(()));
                    }
                },
            }
        }
        self.place = self.place + 1;
        let request: Request = match self.place {
            1 => Request::Wait(1),
            2 => Request::Transfer(SCL3300_MODE_1),
            3 => Request::Transfer(SCL3300_ENABLE_ANGLE_OUTPUTS),
            4 => Request::Wait(25),
            5 => Request::Transfer(SCL3300_READ_STATUS),
            6 => Request::Transfer(SCL3300_READ_STATUS),
            7 => Request::Transfer(SCL3300_READ_STATUS),
            8 => Request::Transfer(SCL3300_READ_WHOAMI),
            _ => Request::Transfer(SCL3300_READ_WHOAMI),
        };
        StartupProgress::Next(request)
    }
}

/// How a startup that stands at `place` ends on the replies that come in, or `None` where they do
/// not settle it.
pub open spec fn startup_run(place: nat, replies: Seq<Reply>) -> Option<Result<(), SensorError>>
    decreases replies.len(),
{
    if replies.len() == 0 {
        None
    } else {
        match startup_verdict(place, replies[0]) {
            Some(verdict) => Some(verdict),
            None => startup_run(place + 1, replies.drop_first()),
        }
    }
}

/// A reply for each request of the script.
pub open spec fn full_replies(replies: Seq<Reply>) -> bool {
    &&& replies.len() == startup_script().len()
    &&& forall|i: int|
        0 <= i < replies.len() ==> answers(#[trigger] replies[i], startup_script()[i])
}

/// The frame that came with a reply.
pub open spec fn response_in(reply: Reply) -> Option<u32> {
    match reply {
        Reply::Response(Ok(response)) => Some(response),
        _ => None,
    }
}

/// The reply reports a response that was not accepted.
pub open spec fn reports_failure(reply: Reply) -> bool {
    reply matches Reply::Response(Err(_))
}

proof fn lemma_startup_run_stops_at(place: nat, replies: Seq<Reply>, at: int)
    requires
        0 <= at < replies.len(),
        forall|i: int|
            0 <= i < at ==> startup_verdict((place + i) as nat, #[trigger] replies[i]) is None,
        startup_verdict((place + at) as nat, replies[at]) is Some,
    ensures
        startup_run(place, replies) == startup_verdict((place + at) as nat, replies[at]),
    decreases at,
{
    if at > 0 {
        let rest = replies.drop_first();
        assert(startup_verdict((place + 0) as nat, replies[0]) is None);
        assert forall|i: int| 0 <= i < at - 1 implies startup_verdict(
            (place + 1 + i) as nat,
            #[trigger] rest[i],
        ) == None::<Result<(), SensorError>> by {
            assert(rest[i] == replies[i + 1]);
        }
        assert(rest[at - 1] == replies[at]);
        lemma_startup_run_stops_at(place + 1, rest, at - 1);
    }
}

/// No reply before place `end` reports a failure.
pub open spec fn no_failure_before(replies: Seq<Reply>, end: int) -> bool {
    forall|i: int| 0 <= i < end ==> !reports_failure(#[trigger] replies[i])
}

/// The status that the replies report is "normal operation".
pub open spec fn status_is_normal(replies: Seq<Reply>) -> bool {
    frame::status_field(response_in(replies[status_place() as int])->0) == 1
}

/// The data of the identification response.
pub open spec fn identification(replies: Seq<Reply>) -> int {
    frame::data_field(response_in(replies[whoami_place() as int])->0)
}

/// A startup that gets a reply to every request succeeds exactly if every response was accepted,
/// the status is "normal operation" and the identification is that of an SCL3300.
pub proof fn startup_success(replies: Seq<Reply>)
    requires
        full_replies(replies),
    ensures
        startup_run(0, replies) is Some,
        startup_run(0, replies) == Some(Ok::<(), SensorError>(())) <==> (no_failure_before(
            replies,
            10,
        ) && status_is_normal(replies) && identification(replies) % 0x100 == 0xC1),
{
    let at = first_verdict(replies, 0);
    lemma_first_verdict(replies, 0);
    lemma_startup_run_stops_at(0, replies, at);
    assert(answers(replies[7], startup_script()[7]));
    assert(answers(replies[9], startup_script()[9]));
    if at < 9 {
        if !reports_failure(replies[at]) {
            assert(at == 7);
        }
    } else {
        assert(startup_verdict(7, replies[7]) is None);
        if reports_failure(replies[9]) {
        } else {
            assert forall|i: int| 0 <= i < 10 implies !reports_failure(#[trigger] replies[i]) by {
                if i < 9 {
                    assert(startup_verdict(i as nat, replies[i]) is None);
                }
            }
        }
    }
}

/// The first response that was not accepted ends the startup with its error, unless the status
/// had ended it before.
pub proof fn startup_ends_with_first_failure(replies: Seq<Reply>, at: int)
    requires
        full_replies(replies),
        0 <= at < replies.len(),
        reports_failure(replies[at]),
        no_failure_before(replies, at),
        at > status_place() ==> status_is_normal(replies),
    ensures
        startup_run(0, replies) == Some(Err::<(), SensorError>(replies[at]->Response_0->Err_0)),
{
    assert forall|i: int| 0 <= i < at implies startup_verdict((0 + i) as nat, #[trigger] replies[i])
        == None::<Result<(), SensorError>> by {
        assert(answers(replies[i], startup_script()[i]));
    }
    lemma_startup_run_stops_at(0, replies, at);
}

/// A status other than "normal operation" ends the startup with that status.
pub proof fn startup_ends_with_status(replies: Seq<Reply>)
    requires
        full_replies(replies),
        no_failure_before(replies, 8),
        !status_is_normal(replies),
    ensures
        startup_run(0, replies) == Some(
            Err::<(), SensorError>(
                SensorError::StartupStatus(
                    frame::status_field(response_in(replies[status_place() as int])->0) as u8,
                ),
            ),
        ),
{
    assert(answers(replies[7], startup_script()[7]));
    assert forall|i: int| 0 <= i < 7 implies startup_verdict((0 + i) as nat, #[trigger] replies[i])
        == None::<Result<(), SensorError>> by {
        assert(answers(replies[i], startup_script()[i]));
    }
    lemma_startup_run_stops_at(0, replies, 7);
}

/// An identification other than that of an SCL3300 ends the startup with what was read.
pub proof fn startup_ends_with_identification(replies: Seq<Reply>)
    requires
        full_replies(replies),
        no_failure_before(replies, 10),
        status_is_normal(replies),
        identification(replies) % 0x100 != 0xC1,
    ensures
        startup_run(0, replies) == Some(
            Err::<(), SensorError>(SensorError::WhoAmI(identification(replies) as u16)),
        ),
{
    assert(answers(replies[9], startup_script()[9]));
    assert(answers(replies[7], startup_script()[7]));
    assert forall|i: int| 0 <= i < 9 implies startup_verdict((0 + i) as nat, #[trigger] replies[i])
        == None::<Result<(), SensorError>> by {
        assert(answers(replies[i], startup_script()[i]));
    }
    lemma_startup_run_stops_at(0, replies, 9);
}

/// The first place from `from` on whose reply settles the startup.
spec fn first_verdict(replies: Seq<Reply>, from: int) -> int
    decreases replies.len() - from,
{
    if from < 0 || from >= replies.len() || startup_verdict(from as nat, replies[from]) is Some {
        from
    } else {
        first_verdict(replies, from + 1)
    }
}

proof fn lemma_first_verdict(replies: Seq<Reply>, from: int)
    requires
        full_replies(replies),
        0 <= from < replies.len(),
    ensures
        from <= first_verdict(replies, from) < replies.len(),
        startup_verdict(
            first_verdict(replies, from) as nat,
            replies[first_verdict(replies, from)],
        ) is Some,
        forall|i: int|
            from <= i < first_verdict(replies, from) ==> startup_verdict(
                i as nat,
                #[trigger] replies[i],
            ) is None,
    decreases replies.len() - from,
{
    assert(answers(replies[from], startup_script()[from]));
    if startup_verdict(from as nat, replies[from]) is None {
        assert(from != 9);
        lemma_first_verdict(replies, from + 1);
    }
}

/// The readings in three responses to the angle commands; the first axis that is amiss decides
/// the error.
pub open spec fn readings_of(x_response: u32, y_response: u32, z_response: u32) -> Result<
    AngleReadings,
    SensorError,
> {
    match (
        frame::reading_of(x_response, SCL3300_READ_ANG_X),
        frame::reading_of(y_response, SCL3300_READ_ANG_Y),
        frame::reading_of(z_response, SCL3300_READ_ANG_Z),
    ) {
        (Err(error), _, _) => Err(error),
        (_, Err(error), _) => Err(error),
        (_, _, Err(error)) => Err(error),
        (Ok(x_raw), Ok(y_raw), Ok(z_raw)) => Ok(AngleReadings { x_raw, y_raw, z_raw }),
    }
}

/// Puts the readings of the three axes together.
pub fn assemble_readings(x_response: u32, y_response: u32, z_response: u32) -> (readings: Result<
    AngleReadings,
    SensorError,
>)
    ensures
        readings == readings_of(x_response, y_response, z_response),
{
    let x_raw: i16 = match parse_read_response(x_response, SCL3300_READ_ANG_X) {
        Ok(raw) => raw,
        Err(error) => return Err(error),
    };
    let y_raw: i16 = match parse_read_response(y_response, SCL3300_READ_ANG_Y) {
        Ok(raw) => raw,
        Err(error) => return Err(error),
    };
    let z_raw: i16 = match parse_read_response(z_response, SCL3300_READ_ANG_Z) {
        Ok(raw) => raw,
        Err(error) => return Err(error),
    };
    Ok(AngleReadings { x_raw, y_raw, z_raw })
}

/// A reading of the angles under way. The sensor answers a command in the frame after it, so
/// each response belongs to the command before the one that is out.
#[derive(Clone, Copy, Debug, PartialEq, Eq, Structural)]
pub enum AngleRead {
    /// The X command is out; its response answers something older.
    SentX,
    /// The Y command is out; its response answers the X command.
    SentY,
    /// The Z command is out; its response answers the Y command.
    SentZ { x_response: u32 },
    /// The status command is out; its response answers the Z command.
    SentStatus { x_response: u32, y_response: u32 },
}

/// How a reading goes on after a response.
#[derive(Clone, Copy, Debug, PartialEq, Eq)]
pub enum ReadProgress {
    /// The reading stands here now, and this frame has to be exchanged next.
    Next(AngleRead, u32),
    /// The reading is over.
    Finished(Result<AngleReadings, SensorError>),
}

impl AngleRead {
    /// The frame that is out.
    pub open spec fn pending(self) -> u32 {
        match self {
            AngleRead::SentX => SCL3300_READ_ANG_X,
            AngleRead::SentY => SCL3300_READ_ANG_Y,
            AngleRead::SentZ { .. } => SCL3300_READ_ANG_Z,
            AngleRead::SentStatus { .. } => SCL3300_READ_STATUS,
        }
    }

    /// Where a response leads.
    pub open spec fn after(self, outcome: Result<u32, SensorError>) -> ReadProgress {
        match outcome {
            Err(error) => ReadProgress::Finished(Err(error)),
            Ok(response) => match self {
                AngleRead::SentX => ReadProgress::Next(AngleRead::SentY, SCL3300_READ_ANG_Y),
                AngleRead::SentY => ReadProgress::Next(
                    AngleRead::SentZ { x_response: response },
                    SCL3300_READ_ANG_Z,
                ),
                AngleRead::SentZ { x_response } => ReadProgress::Next(
                    AngleRead::SentStatus { x_response, y_response: response },
                    SCL3300_READ_STATUS,
                ),
                AngleRead::SentStatus { x_response, y_response } => ReadProgress::Finished(
                    readings_of(x_response, y_response, response),
                ),
            },
        }
    }

    /// Starts a reading, with the X command.
    pub fn begin() -> (started: (AngleRead, u32))
        ensures
            started.0 == AngleRead::SentX,
            started.1 == started.0.pending(),
    {
        (AngleRead::SentX, SCL3300_READ_ANG_X)
    }

    /// Takes the response to the frame that is out.
    pub fn advance(self, outcome: Result<u32, SensorError>) -> (progress: ReadProgress)
        ensures
            progress == self.after(outcome),
    {
        let response: u32 = match outcome {
            Ok(response) => response,
            Err(error) => return ReadProgress::Finished(Err(error)),
        };
        match self {
            AngleRead::SentX => ReadProgress::Next(AngleRead::SentY, SCL3300_READ_ANG_Y),
            AngleRead::SentY => ReadProgress::Next(
                AngleRead::SentZ { x_response: response },
                SCL3300_READ_ANG_Z,
            ),
            AngleRead::SentZ { x_response } => ReadProgress::Next(
                AngleRead::SentStatus { x_response, y_response: response },
                SCL3300_READ_STATUS,
            ),
            AngleRead::SentStatus { x_response, y_response } => ReadProgress::Finished(
                assemble_readings(x_response, y_response, response),
            ),
        }
    }
}

/// How a reading that stands at `read` ends on the responses that come in, or `None` where they
/// do not settle it.
pub open spec fn read_run(read: AngleRead, outcomes: Seq<Result<u32, SensorError>>) -> Option<
    Result<AngleReadings, SensorError>,
>
    decreases outcomes.len(),
{
    if outcomes.len() == 0 {
        None
    } else {
        match read.after(outcomes[0]) {
            ReadProgress::Finished(result) => Some(result),
            ReadProgress::Next(next, _) => read_run(next, outcomes.drop_first()),
        }
    }
}

/// Each step of a reading sends the frame that the reading then has out.
pub proof fn reading_sends_what_it_waits_for(read: AngleRead, outcome: Result<u32, SensorError>)
    ensures
        read.after(outcome) matches ReadProgress::Next(next, sent) ==> sent == next.pending(),
{
}

/// Four accepted responses settle a reading: the first is dropped, and the others are the answers
/// to the X, Y and Z commands.
pub proof fn reading_takes_the_last_three_responses(
    first: u32,
    x_response: u32,
    y_response: u32,
    z_response: u32,
)
    ensures
        read_run(
            AngleRead::SentX,
            seq![Ok(first), Ok(x_response), Ok(y_response), Ok(z_response)],
        ) == Some(readings_of(x_response, y_response, z_response)),
{
    let all: Seq<Result<u32, SensorError>> = seq![
        Ok(first),
        Ok(x_response),
        Ok(y_response),
        Ok(z_response),
    ];
    reveal_with_fuel(read_run, 5);
    assert(all.drop_first()[0] == all[1]);
    assert(all.drop_first().drop_first()[0] == all[2]);
    assert(all.drop_first().drop_first().drop_first()[0] == all[3]);
}

/// A response that was not accepted ends a reading with its error, whatever came before.
pub proof fn reading_ends_with_first_failure(
    outcomes: Seq<Result<u32, SensorError>>,
    at: int,
    error: SensorError,
)
    requires
        0 <= at < outcomes.len(),
        at < 4,
        forall|i: int| 0 <= i < at ==> (#[trigger] outcomes[i]) is Ok,
        outcomes[at] == Err::<u32, SensorError>(error),
    ensures
        read_run(AngleRead::SentX, outcomes) == Some(Err::<AngleReadings, SensorError>(error)),
{
    reveal_with_fuel(read_run, 5);
    let rest1 = outcomes.drop_first();
    let rest2 = rest1.drop_first();
    let rest3 = rest2.drop_first();
    assert(at > 0 ==> outcomes[0] is Ok && rest1[0] == outcomes[1]);
    assert(at > 1 ==> outcomes[1] is Ok && rest2[0] == outcomes[2]);
    assert(at > 2 ==> outcomes[2] is Ok && rest3[0] == outcomes[3]);
}

/// Each axis of the readings is the reading of its own response and of no other: there are readings
/// exactly if each response has one for its command.
pub proof fn each_axis_has_its_own_response(x_response: u32, y_response: u32, z_response: u32)
    ensures
        readings_of(x_response, y_response, z_response) matches Ok(readings) ==> {
            &&& frame::reading_of(x_response, 0x2400_00C7) == Ok::<i16, SensorError>(readings.x_raw)
            &&& frame::reading_of(y_response, 0x2800_00CD) == Ok::<i16, SensorError>(readings.y_raw)
            &&& frame::reading_of(z_response, 0x2C00_00CB) == Ok::<i16, SensorError>(readings.z_raw)
        },
        readings_of(x_response, y_response, z_response) is Ok <==> (frame::reading_of(
            x_response,
            0x2400_00C7,
        ) is Ok && frame::reading_of(y_response, 0x2800_00CD) is Ok && frame::reading_of(
            z_response,
            0x2C00_00CB,
        ) is Ok),
{
}

/// What the readings say is in the bits of the responses: three responses with the operation codes
/// 9, 10 and 11 and the status 1 give the numbers whose patterns are their data, in this order.
pub proof fn readings_are_the_data(x_response: u32, y_response: u32, z_response: u32)
    requires
        x_response / 0x100_0000 == 0x25,
        y_response / 0x100_0000 == 0x29,
        z_response / 0x100_0000 == 0x2D,
    ensures
        readings_of(x_response, y_response, z_response) matches Ok(readings) && {
            &&& (readings.x_raw - x_response as int / 0x100) % 0x1_0000 == 0
            &&& (readings.y_raw - y_response as int / 0x100) % 0x1_0000 == 0
            &&& (readings.z_raw - z_response as int / 0x100) % 0x1_0000 == 0
        },
{
    frame::reading_is_the_data(x_response, 0x2400_00C7);
    frame::reading_is_the_data(y_response, 0x2800_00CD);
    frame::reading_is_the_data(z_response, 0x2C00_00CB);
}

/// Readings that cannot be had are refused with the error of the first axis that is amiss, X before
/// Y before Z.
pub proof fn first_axis_that_is_amiss_is_told(x_response: u32, y_response: u32, z_response: u32)
    ensures
        frame::reading_of(x_response, 0x2400_00C7) matches Err(error) ==> readings_of(
            x_response,
            y_response,
            z_response,
        ) == Err::<AngleReadings, SensorError>(error),
        frame::reading_of(x_response, 0x2400_00C7) is Ok ==> (frame::reading_of(
            y_response,
            0x2800_00CD,
        ) matches Err(error) ==> readings_of(x_response, y_response, z_response) == Err::<
            AngleReadings,
            SensorError,
        >(error)),
        frame::reading_of(x_response, 0x2400_00C7) is Ok && frame::reading_of(
            y_response,
            0x2800_00CD,
        ) is Ok ==> (frame::reading_of(z_response, 0x2C00_00CB) matches Err(error) ==> readings_of(
            x_response,
            y_response,
            z_response,
        ) == Err::<AngleReadings, SensorError>(error)),
{
}

/// A reading sends the commands for X, Y, Z and the status, in this order, whatever is in the
/// responses that were accepted, and stops where one was not.
pub proof fn reading_sends_its_commands_in_order(read: AngleRead, response: u32, error: SensorError)
    ensures
        read.pending() == (match read {
            AngleRead::SentX => 0x2400_00C7u32,
            AngleRead::SentY => 0x2800_00CD,
            AngleRead::SentZ { .. } => 0x2C00_00CB,
            AngleRead::SentStatus { .. } => 0x1800_00E5,
        }),
        read is SentX ==> read.after(Ok(response)) == ReadProgress::Next(
            AngleRead::SentY,
            0x2800_00CD,
        ),
        read is SentY ==> read.after(Ok(response)) == ReadProgress::Next(
            AngleRead::SentZ { x_response: response },
            0x2C00_00CB,
        ),
        read matches AngleRead::SentZ { x_response } ==> read.after(Ok(response))
            == ReadProgress::Next(
            AngleRead::SentStatus { x_response, y_response: response },
            0x1800_00E5,
        ),
        read.after(Err(error)) == ReadProgress::Finished(Err(error)),
{
}

/// The requests of the startup in full: a reset and a millisecond of rest, the measuring mode and
/// the angle outputs and 25 milliseconds of rest, the status three times and the identification
/// twice.
pub proof fn startup_requests_in_full(startup: Startup)
    requires
        startup.place < 10,
    ensures
        startup_script().len() == 10,
        startup.pending() == seq![
            Request::Transfer(0xB400_2098),
            Request::Wait(1),
            Request::Transfer(0xB400_001F),
            Request::Transfer(0xB000_1F6F),
            Request::Wait(25),
            Request::Transfer(0x1800_00E5),
            Request::Transfer(0x1800_00E5),
            Request::Transfer(0x1800_00E5),
            Request::Transfer(0x4000_0091),
            Request::Transfer(0x4000_0091),
        ][startup.place as int],
{
}

/// What one reply means for the startup: a response that was not accepted ends it with its error;
/// the third status ends it if its status bits are not 1; the second identification ends it, well
/// if the low byte of the data is that of an SCL3300; and nothing else ends it.
pub proof fn reply_settles_the_startup(place: nat, response: u32, error: SensorError)
    requires
        place < 10,
    ensures
        startup_verdict(place, Reply::Waited) is None,
        startup_verdict(place, Reply::Response(Err(error))) == Some(Err::<(), SensorError>(error)),
        place != 7 && place != 9 ==> startup_verdict(place, Reply::Response(Ok(response))) is None,
        place == 7 && (response / 0x100_0000) % 4 == 1 ==> startup_verdict(
            place,
            Reply::Response(Ok(response)),
        ) is None,
        place == 7 && (response / 0x100_0000) % 4 != 1 ==> startup_verdict(
            place,
            Reply::Response(Ok(response)),
        ) == Some(
            Err::<(), SensorError>(
                SensorError::StartupStatus(((response / 0x100_0000) % 4) as u8),
            ),
        ),
        place == 9 && (response / 0x100) % 0x100 == 0xC1 ==> startup_verdict(
            place,
            Reply::Response(Ok(response)),
        ) == Some(Ok::<(), SensorError>(())),
        place == 9 && (response / 0x100) % 0x100 != 0xC1 ==> startup_verdict(
            place,
            Reply::Response(Ok(response)),
        ) == Some(
            Err::<(), SensorError>(SensorError::WhoAmI(((response / 0x100) % 0x1_0000) as u16)),
        ),
{
    assert(((response / 0x100) % 0x1_0000) % 0x100 == (response / 0x100) % 0x100);
}

/// With every response accepted, the startup comes out as the third status and the second
/// identification say, whatever the other responses hold.
pub proof fn status_and_identification_decide(replies: Seq<Reply>, status: u32, whoami: u32)
    requires
        full_replies(replies),
        forall|i: int|
            0 <= i < 10 ==> ((#[trigger] replies[i]) matches Reply::Response(outcome)
                ==> outcome is Ok),
        replies[7] == Reply::Response(Ok(status)),
        replies[9] == Reply::Response(Ok(whoami)),
    ensures
        (status / 0x100_0000) % 4 == 1 && (whoami / 0x100) % 0x100 == 0xC1 ==> startup_run(
            0,
            replies,
        ) == Some(Ok::<(), SensorError>(())),
        (status / 0x100_0000) % 4 != 1 ==> startup_run(0, replies) == Some(
            Err::<(), SensorError>(SensorError::StartupStatus(((status / 0x100_0000) % 4) as u8)),
        ),
        (status / 0x100_0000) % 4 == 1 && (whoami / 0x100) % 0x100 != 0xC1 ==> startup_run(
            0,
            replies,
        ) == Some(
            Err::<(), SensorError>(SensorError::WhoAmI(((whoami / 0x100) % 0x1_0000) as u16)),
        ),
{
    reply_settles_the_startup(7, status, SensorError::Spi);
    reply_settles_the_startup(9, whoami, SensorError::Spi);
    assert forall|i: int| 0 <= i < 9 && i != 7 implies startup_verdict(
        (0 + i) as nat,
        #[trigger] replies[i],
    ) is None by {
        assert(replies[i] matches Reply::Response(outcome) ==> outcome is Ok);
    }
    if (status / 0x100_0000) % 4 == 1 {
        lemma_startup_run_stops_at(0, replies, 9);
    } else {
        lemma_startup_run_stops_at(0, replies, 7);
    }
}

} // verus!
