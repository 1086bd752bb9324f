//! Consuming messages: which batch comes next, and what it all comes to.

use crate::batch::{BatchOutcome, LogScope, Tally};
use crate::flush::SinkError;
use crate::message::ConsumedMessage;
use crate::text::{decimal, decimal_text};
use vstd::prelude::*;
use vstd::string::*;

verus! {

/// How many of `n` messages a batch of at most `size` takes.
pub open spec fn batch_len(n: nat, size: nat) -> nat {
    if size < n {
        size
    } else {
        n
    }
}

/// Messages on their way into the database, batch by batch.
#[derive(Debug)]
pub struct Consumption {
    /// How many messages there were.
    pub received: usize,
    /// The messages that no batch holds yet.
    pub pending: Vec<ConsumedMessage>,
    /// The number of messages in the batch that is being written.
    pub in_flight: usize,
    /// What came of the batches that were written.
    pub total: BatchOutcome,
}

impl Consumption {
    /// Every message is counted once: as written, as rejected, in the batch that is being
    /// written, or as pending.
    pub open spec fn wf(self) -> bool {
        self.received == self.total.rows_written + self.total.rejected_rows + self.in_flight
            + self.pending@.len()
    }

    /// Whether nothing is left to write.
    pub open spec fn finished(self) -> bool {
        self.pending@.len() == 0 && self.in_flight == 0
    }

    /// Whether `r` is how work on `messages` starts.
    pub open spec fn started(
        connected: bool,
        messages: Seq<ConsumedMessage>,
        r: Result<Option<Consumption>, SinkError>,
    ) -> bool {
        match r {
            Err(error) => {
                &&& !connected
                &&& error matches SinkError::InitError(text)
                &&& text@ == "QuestDB pool is not initialized"@
            },
            Ok(None) => connected && messages.len() == 0,
            Ok(Some(work)) => {
                &&& connected
                &&& messages.len() > 0
                &&& work.received == messages.len()
                &&& work.pending@ == messages
                &&& work.in_flight == 0
                &&& work.total@ == Tally::none()
            },
        }
    }

    /// Whether `r` is the next batch of at most `size` messages, and `after` what is then left.
    pub open spec fn batch_taken(
        self,
        size: nat,
        r: Option<Vec<ConsumedMessage>>,
        after: Consumption,
    ) -> bool {
        match r {
            None => self.pending@.len() == 0 && after == self,
            Some(batch) => {
                let n = batch_len(self.pending@.len(), size) as int;
                &&& self.pending@.len() > 0
                &&& batch@ == self.pending@.take(n)
                &&& after.pending@ == self.pending@.skip(n)
                &&& after.in_flight == n
                &&& after.received == self.received
                &&& after.total == self.total
            },
        }
    }

    /// Whether `after` is this work once the batch being written came to `outcome`.
    pub open spec fn batch_added(self, outcome: BatchOutcome, after: Consumption) -> bool {
        &&& after.total@ == self.total@.merged(outcome@)
        &&& after.in_flight == 0
        &&& after.pending == self.pending
        &&& after.received == self.received
    }

    /// Starts on `messages`; `None` where there are none. A sink without a connection
    /// takes none at all.
    pub fn start(connected: bool, messages: Vec<ConsumedMessage>) -> (r: Result<
        Option<Consumption>,
        SinkError,
    >)
        ensures
            Self::started(connected, messages@, r),
            r matches Ok(Some(work)) ==> work.wf(),
    {
        if !connected {
            return Err(SinkError::InitError("QuestDB pool is not initialized".to_owned()));
        }
        if messages.len() == 0 {
            return Ok(None);
        }
        let received: usize = messages.len();
        Ok(
            Some(
                Consumption {
                    received,
                    pending: messages,
                    in_flight: 0,
                    total: BatchOutcome::default(),
                },
            ),
        )
    }

    /// Takes the next batch of at most `batch_size` messages; `None` once all are taken.
    pub fn next_batch(&mut self, batch_size: usize) -> (r: Option<Vec<ConsumedMessage>>)
        requires
            old(self).wf(),
            old(self).in_flight == 0,
        ensures
            old(self).batch_taken(batch_size as nat, r, *final(self)),
            r matches Some(batch) ==> (batch_size > 0 ==> batches(
                old(self).pending@,
                batch_size as nat,
            ) == seq![batch@] + batches(final(self).pending@, batch_size as nat)),
            final(self).wf(),
    {
        if self.pending.len() == 0 {
            return None;
        }
        let take: usize = if batch_size < self.pending.len() {
            batch_size
        } else {
            self.pending.len()
        };
        let mut batch = self.pending.split_off(take);
        std::mem::swap(&mut self.pending, &mut batch);
        self.in_flight = take;
        Some(batch)
    }

    /// Adds what came of the batch that was being written.
    pub fn batch_done(&mut self, outcome: BatchOutcome)
        requires
            old(self).wf(),
            outcome.rows_written + outcome.rejected_rows == old(self).in_flight,
        ensures
            old(self).batch_added(outcome, *final(self)),
            final(self).wf(),
    {
        self.total.merge(outcome);
        self.in_flight = 0;
    }

    /// The warning on rejected messages, where there are any.
    pub open spec fn warning(self, scope: LogScope) -> Option<Seq<char>> {
        if self.total.rejected_rows > 0 {
            Some(
                scope.name() + " rejected "@ + decimal(self.total.rejected_rows as nat) + " of "@
                    + decimal(self.received as nat) + " messages, last reason: "@
                    + match self.total@.last_rejection {
                    Some(reason) => reason,
                    None => "unknown"@,
                },
            )
        } else {
            None
        }
    }

    /// Writes the warning on rejected messages, where there are any.
    pub fn warning_text(&self, scope: LogScope) -> (r: Option<String>)
        ensures
            self.warning(scope) == match r {
                Some(text) => Some(text@),
                None => None,
            },
    {
        if self.total.rejected_rows == 0 {
            return None;
        }
        let mut text: String = scope.name_text();
        text.append(" rejected ");
        text.append(decimal_text(self.total.rejected_rows as u128).as_str());
        text.append(" of ");
        text.append(decimal_text(self.received as u128).as_str());
        text.append(" messages, last reason: ");
        match &self.total.last_rejection {
            Some(reason) => text.append(reason.as_str()),
            None => text.append("unknown"),
        }
        Some(text)
    }
}

/// What a sink has done since it was made.
#[derive(Debug, Clone, Copy, PartialEq, Eq, Structural)]
pub struct State {
    pub messages_processed: u64,
    pub rows_written: u64,
    pub rejected_rows: u64,
}

impl Default for State {
    fn default() -> (r: Self)
        ensures
            r.messages_processed == 0,
            r.rows_written == 0,
            r.rejected_rows == 0,
    {
        State { messages_processed: 0, rows_written: 0, rejected_rows: 0 }
    }
}

impl State {
    /// Every message processed was either written or rejected.
    pub open spec fn balanced(self) -> bool {
        self.messages_processed == self.rows_written + self.rejected_rows
    }

    /// Whether `after` is this count and what came of `work`.
    pub open spec fn counted(self, work: Consumption, after: State) -> bool {
        &&& after.messages_processed == self.messages_processed + work.received
        &&& after.rows_written == self.rows_written + work.total.rows_written
        &&& after.rejected_rows == self.rejected_rows + work.total.rejected_rows
    }

    /// Adds what came of a consumption.
    pub fn record(&mut self, work: &Consumption)
        requires
            old(self).messages_processed + work.received <= u64::MAX,
            old(self).rows_written + work.total.rows_written <= u64::MAX,
            old(self).rejected_rows + work.total.rejected_rows <= u64::MAX,
        ensures
            old(self).counted(*work, *final(self)),
            old(self).balanced() && work.wf() && work.finished() ==> final(self).balanced(),
    {
        self.messages_processed = self.messages_processed + work.received as u64;
        self.rows_written = self.rows_written + work.total.rows_written as u64;
        self.rejected_rows = self.rejected_rows + work.total.rejected_rows as u64;
    }
}

/// The batches of at most `size` that `messages` are written in.
pub open spec fn batches(messages: Seq<ConsumedMessage>, size: nat) -> Seq<Seq<ConsumedMessage>>
    decreases messages.len(),
{
    if messages.len() == 0 || size == 0 {
        seq![]
    } else {
        let n = batch_len(messages.len(), size) as int;
        seq![messages.take(n)] + batches(messages.skip(n), size)
    }
}

} // verus!
