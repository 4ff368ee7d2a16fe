use vstd::prelude::*;
use crate::domain::event::Event;
use crate::domain::order::Order;
use crate::text::{is_white_space, law_words_are_nonblank_runs, split_words, words};

verus! {

/// One command to run on this host for an event.
pub struct ShellJob {
    /// The command line: the order's command, and the event's argument after
    /// a space when it has one.
    pub command: String,
    /// First word of the command line: the program to start.
    pub program: String,
    /// The other words: its arguments.
    pub args: Vec<String>,
    /// Seconds to wait before starting it.
    pub delay_secs: u64,
}

/// Runs orders as commands on this host.
pub struct OrderExecutorShell {}

/// The command line that `event` runs for `order`.
pub open spec fn command_line(order: Order, event: Event) -> Seq<char> {
    match event.arg {
        Some(arg) => order.command@ + " "@ + arg@,
        None => order.command@,
    }
}

/// The command line has at least one word, so there is a program to start.
pub open spec fn has_program(order: Order, event: Event) -> bool {
    words(command_line(order, event)).len() > 0
}

/// `has_program` as a predicate on orders.
pub open spec fn has_program_pred(event: Event) -> spec_fn(Order) -> bool {
    |o: Order| has_program(o, event)
}

/// Seconds an event asks to wait: its duration, or none.
pub open spec fn event_delay(event: Event) -> u64 {
    match event.duration {
        Some(secs) => secs,
        None => 0,
    }
}

/// `job` runs `order` for `event`: the program is the first word of the
/// command line, the arguments are the others, and it starts after the
/// event's delay.
pub open spec fn is_job_for(job: ShellJob, order: Order, event: Event) -> bool {
    &&& job.command@ == command_line(order, event)
    &&& job.program@ == words(command_line(order, event))[0]
    &&& job.args@.map_values(|a: String| a@) == words(command_line(order, event)).drop_first()
    &&& job.delay_secs == event_delay(event)
}

impl OrderExecutorShell {
    pub fn new() -> (r: Self) {
        OrderExecutorShell {}
    }

    /// The command line of `order` for `event`.
    fn command_line(order: Order, event: &Event) -> (r: String)
        ensures
            r@ == command_line(order, *event),
    {
        match &event.arg {
            Some(arg) => {
                let mut line = order.command;
                line.append(" ");
                line.append(arg.as_str());
                line
            },
            None => order.command,
        }
    }

    /// The commands to run for `event`: one per order whose command line has
    /// a word, in the orders' order. An order whose command line is blank
    /// runs nothing.
    pub fn plan(&self, orders: Vec<Order>, event: &Event) -> (r: Vec<ShellJob>)
        ensures
            r@.len() == orders@.filter(has_program_pred(*event)).len(),
            forall|i: int|
                0 <= i < r@.len() ==> is_job_for(
                    #[trigger] r@[i],
                    orders@.filter(has_program_pred(*event))[i],
                    *event,
                ),
    {
        let delay: u64 = match event.duration {
            Some(secs) => secs,
            None => 0,
        };
        let ghost all = orders@;
        let ghost pred = has_program_pred(*event);
        let mut jobs: Vec<ShellJob> = Vec::new();
        for o in it: orders.into_iter()
            invariant
                it.seq() == all,
                pred == has_program_pred(*event),
                delay == event_delay(*event),
                jobs@.len() == all.take(it.index() as int).filter(pred).len(),
                forall|j: int|
                    0 <= j < jobs@.len() ==> is_job_for(
                        #[trigger] jobs@[j],
                        all.take(it.index() as int).filter(pred)[j],
                        *event,
                    ),
        {
            let ghost i = it.index() as int;
            let ghost before = all.take(i).filter(pred);
            let ghost order = o;
            proof {
                assert(all.take(i + 1) =~= all.take(i).push(o));
                all.take(i).lemma_filter_push(o, pred);
            }
            let line = Self::command_line(o, event);
            let mut parts = split_words(line.as_str());
            if parts.len() > 0 {
                let ghost ws = parts@;
                let program = parts.remove(0);
                assert(parts@.map_values(|a: String| a@) =~= ws.map_values(|a: String| a@).drop_first());
                let job = ShellJob { command: line, program, args: parts, delay_secs: delay };
                let ghost jobs_before = jobs@;
                jobs.push(job);
                assert(all.take(i + 1).filter(pred) == before.push(order));
                assert forall|j: int| 0 <= j < jobs@.len() implies is_job_for(
                    #[trigger] jobs@[j],
                    all.take(i + 1).filter(pred)[j],
                    *event,
                ) by {
                    if j < jobs@.len() - 1 {
                        assert(jobs@[j] == jobs_before[j]);
                    }
                }
            }
        }
        assert(all.take(all.len() as int) =~= all);
        jobs
    }
}

/// The program of a planned job and each of its arguments are non-empty and
/// hold no white space.
pub proof fn law_job_words_are_nonblank(job: ShellJob, order: Order, event: Event)
    requires
        is_job_for(job, order, event),
        has_program(order, event),
    ensures
        job.program@.len() > 0,
        forall|j: int| 0 <= j < job.program@.len() ==> !is_white_space(#[trigger] job.program@[j]),
        forall|i: int|
            0 <= i < job.args@.len() ==> (#[trigger] job.args@[i])@.len() > 0 && forall|j: int|
                0 <= j < job.args@[i]@.len() ==> !is_white_space(#[trigger] job.args@[i]@[j]),
{
    let ws = words(command_line(order, event));
    law_words_are_nonblank_runs(command_line(order, event));
    assert(ws[0].len() > 0);
    assert forall|i: int| 0 <= i < job.args@.len() implies (#[trigger] job.args@[i])@.len() > 0
        && forall|j: int| 0 <= j < job.args@[i]@.len() ==> !is_white_space(#[trigger] job.args@[i]@[j]) by {
        assert(job.args@.map_values(|a: String| a@).len() == job.args@.len());
        assert(ws.drop_first().len() == ws.len() - 1);
        assert(job.args@.map_values(|a: String| a@)[i] == job.args@[i]@);
        assert(ws.drop_first()[i] == ws[i + 1]);
        assert(ws[i + 1].len() > 0);
    }
}

/// A planned job runs the order's command with the event's argument appended
/// after a space (the command alone without one), as the program of the
/// line's first word with its other words as arguments, after the event's
/// duration in seconds (at once without one), whatever the event's argument.
pub proof fn law_planned_job_runs_command_line(job: ShellJob, order: Order, event: Event)
    requires
        is_job_for(job, order, event),
        words(job.command@).len() > 0,
    ensures
        job.command@ == match event.arg {
            Some(a) => order.command@ + " "@ + a@,
            None => order.command@,
        },
        job.delay_secs == match event.duration {
            Some(secs) => secs,
            None => 0,
        },
        seq![job.program@] + job.args@.map_values(|a: String| a@) == words(job.command@),
{
    let ws = words(job.command@);
    assert(seq![ws[0]] + ws.drop_first() =~= ws);
}

/// The orders that get a job, built order by order: none from no orders; an
/// order added at the end gets one, after the others, exactly when its
/// command line (with the event's argument) has a word, whatever its name or
/// target.
pub proof fn law_plan_step_by_step(orders: Seq<Order>, order: Order, event: Event)
    ensures
        Seq::<Order>::empty().filter(has_program_pred(event)) == Seq::<Order>::empty(),
        orders.push(order).filter(has_program_pred(event)) == if words(
            match event.arg {
                Some(a) => order.command@ + " "@ + a@,
                None => order.command@,
            },
        ).len() > 0 {
            orders.filter(has_program_pred(event)).push(order)
        } else {
            orders.filter(has_program_pred(event))
        },
{
    reveal(Seq::filter);
    assert(Seq::<Order>::empty().filter(has_program_pred(event)) =~= Seq::<Order>::empty());
    orders.lemma_filter_push(order, has_program_pred(event));
}

} // verus!
