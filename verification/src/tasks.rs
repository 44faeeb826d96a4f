//! The notices sent to all caches, and the daily sweep over the known guilds.
//!
//! A guild that is known but no longer connected is stamped with an
//! expiration ninety days ahead. A guild whose expiration has passed is
//! deleted, and every cache is told to drop it.

use vstd::prelude::*;

verus! {

/// A notice to every long-running task and cache.
#[derive(Debug, Clone, Copy, PartialEq, Eq, Structural)]
pub enum TaskMessage {
    /// The process shuts down: stop.
    Kill,
    /// The guild was purged from the durable store: drop its entry.
    DestroyGuild(u64),
}

/// What wakes a background task.
#[derive(Debug, Clone, Copy, PartialEq, Eq, Structural)]
pub enum Wake {
    /// The waiting time is over.
    Timer,
    /// A notice arrived.
    Message(TaskMessage),
    /// The channel of notices failed or was closed.
    Closed,
}

/// The seconds of grace between the stamp and the purge: ninety days.
pub const GRACE_SECONDS: i64 = 7776000;

/// A row of the durable table of guilds. Times are seconds since the epoch.
#[derive(Debug, Clone, Copy, PartialEq, Eq, Structural)]
pub struct GuildRecord {
    pub id: u64,
    /// When the guild may be purged; nothing while it is active.
    pub expiration: Option<i64>,
}

/// Whether a background task stops when woken: on `Kill` and on a failed
/// channel. Woken by the timer or by any other notice it runs once more.
pub fn should_stop(wake: Wake) -> (stop: bool)
    ensures
        stop == (wake == Wake::Message(TaskMessage::Kill) || wake == Wake::Closed),
{
    match wake {
        Wake::Timer => false,
        Wake::Message(msg) => matches!(msg, TaskMessage::Kill),
        Wake::Closed => true,
    }
}

/// The guilds of `active`, in order, that are not connected.
pub open spec fn spec_missing(active: Seq<u64>, connected: Seq<u64>) -> Seq<u64>
    decreases active.len(),
{
    if active.len() == 0 {
        Seq::empty()
    } else {
        let before = spec_missing(active.drop_last(), connected);
        if connected.contains(active.last()) {
            before
        } else {
            before.push(active.last())
        }
    }
}

/// Whether `v` holds `x`.
pub fn holds(v: &Vec<u64>, x: u64) -> (r: bool)
    ensures
        r == v@.contains(x),
{
    let mut i: usize = 0;
    while i < v.len()
        invariant
            i <= v.len(),
            forall|j: int| 0 <= j < i ==> v@[j] != x,
        decreases v.len() - i,
    {
        if v[i] == x {
            return true;
        }
        i += 1;
    }
    false
}

/// The guilds without expiration that are not connected: those to stamp.
pub fn missing_guilds(active: &Vec<u64>, connected: &Vec<u64>) -> (out: Vec<u64>)
    ensures
        out@ == spec_missing(active@, connected@),
{
    let mut out: Vec<u64> = Vec::new();
    let mut i: usize = 0;
    assert(active@.take(0) =~= Seq::<u64>::empty());
    while i < active.len()
        invariant
            i <= active.len(),
            out@ == spec_missing(active@.take(i as int), connected@),
        decreases active.len() - i,
    {
        assert(active@.take(i + 1).drop_last() =~= active@.take(i as int));
        if !holds(connected, active[i]) {
            out.push(active[i]);
        }
        i += 1;
    }
    assert(active@.take(active.len() as int) =~= active@);
    out
}

/// The expiration to stamp at time `now`: ninety days later.
pub fn expiration_for(now: i64) -> (at: i64)
    requires
        now + GRACE_SECONDS <= i64::MAX,
    ensures
        at == now + GRACE_SECONDS,
{
    now + GRACE_SECONDS
}

/// The notices for the guilds that were deleted: one each, in order.
pub fn destroy_notices(deleted: &Vec<u64>) -> (out: Vec<TaskMessage>)
    ensures
        out@ == Seq::new(deleted@.len(), |i: int| TaskMessage::DestroyGuild(deleted@[i])),
{
    let mut out: Vec<TaskMessage> = Vec::new();
    let mut i: usize = 0;
    while i < deleted.len()
        invariant
            i <= deleted.len(),
            out@ == Seq::new(i as nat, |j: int| TaskMessage::DestroyGuild(deleted@[j])),
        decreases deleted.len() - i,
    {
        out.push(TaskMessage::DestroyGuild(deleted[i]));
        i += 1;
        assert(out@ =~= Seq::new(i as nat, |j: int| TaskMessage::DestroyGuild(deleted@[j])));
    }
    out
}

/// What one sweep at time `now` makes of a record: nothing where its
/// expiration has passed; the record stamped where it had no expiration and
/// the guild is not connected; else the record as it was.
pub open spec fn spec_after_sweep(r: GuildRecord, connected: Seq<u64>, now: i64) -> Option<
    GuildRecord,
> {
    match r.expiration {
        Some(at) => if at < now {
            None
        } else {
            Some(r)
        },
        None => if connected.contains(r.id) {
            Some(r)
        } else {
            Some(GuildRecord { id: r.id, expiration: Some((now + GRACE_SECONDS) as i64) })
        },
    }
}

/// The table after a sweep: the records that remain, in order.
pub open spec fn spec_swept(table: Seq<GuildRecord>, connected: Seq<u64>, now: i64) -> Seq<
    GuildRecord,
>
    decreases table.len(),
{
    if table.len() == 0 {
        Seq::empty()
    } else {
        let before = spec_swept(table.drop_last(), connected, now);
        match spec_after_sweep(table.last(), connected, now) {
            Some(r) => before.push(r),
            None => before,
        }
    }
}

/// The guilds that a sweep deletes, in order.
pub open spec fn spec_purged(table: Seq<GuildRecord>, connected: Seq<u64>, now: i64) -> Seq<u64>
    decreases table.len(),
{
    if table.len() == 0 {
        Seq::empty()
    } else {
        let before = spec_purged(table.drop_last(), connected, now);
        match spec_after_sweep(table.last(), connected, now) {
            Some(_) => before,
            None => before.push(table.last().id),
        }
    }
}

/// One sweep over the table of guilds at time `now`. The table is left as the
/// sweep leaves the durable table, and the notices to broadcast are returned:
/// `DestroyGuild` once for each deleted guild.
pub fn guild_cleanup(table: &mut Vec<GuildRecord>, connected: &Vec<u64>, now: i64) -> (notices: Vec<
    TaskMessage,
>)
    requires
        now + GRACE_SECONDS <= i64::MAX,
    ensures
        final(table)@ == spec_swept(old(table)@, connected@, now),
        notices@ == Seq::new(
            spec_purged(old(table)@, connected@, now).len(),
            |i: int| TaskMessage::DestroyGuild(spec_purged(old(table)@, connected@, now)[i]),
        ),
{
    let mut kept: Vec<GuildRecord> = Vec::new();
    let mut deleted: Vec<u64> = Vec::new();
    let mut i: usize = 0;
    assert(table@.take(0) =~= Seq::<GuildRecord>::empty());
    while i < table.len()
        invariant
            i <= table.len(),
            table@ == old(table)@,
            now + GRACE_SECONDS <= i64::MAX,
            kept@ == spec_swept(table@.take(i as int), connected@, now),
            deleted@ == spec_purged(table@.take(i as int), connected@, now),
        decreases table.len() - i,
    {
        assert(table@.take(i + 1).drop_last() =~= table@.take(i as int));
        let r = table[i];
        match r.expiration {
            Some(at) => {
                if at < now {
                    deleted.push(r.id);
                } else {
                    kept.push(r);
                }
            },
            None => {
                if holds(connected, r.id) {
                    kept.push(r);
                } else {
                    kept.push(GuildRecord { id: r.id, expiration: Some(expiration_for(now)) });
                }
            },
        }
        i += 1;
    }
    assert(table@.take(table.len() as int) =~= table@);
    *table = kept;
    destroy_notices(&deleted)
}

/// A guild that was stamped is left alone by every sweep up to its
/// expiration, connected or not, and is deleted by the first sweep after it.
pub proof fn lemma_grace_period(
    r: GuildRecord,
    connected: Seq<u64>,
    stamped_at: i64,
    later_connected: Seq<u64>,
    later: i64,
)
    requires
        r.expiration is None,
        !connected.contains(r.id),
        stamped_at + GRACE_SECONDS <= i64::MAX,
    ensures
        spec_after_sweep(r, connected, stamped_at) == Some(
            GuildRecord { id: r.id, expiration: Some((stamped_at + GRACE_SECONDS) as i64) },
        ),
        later <= stamped_at + GRACE_SECONDS ==> spec_after_sweep(
            spec_after_sweep(r, connected, stamped_at)->0,
            later_connected,
            later,
        ) == spec_after_sweep(r, connected, stamped_at),
        later > stamped_at + GRACE_SECONDS ==> spec_after_sweep(
            spec_after_sweep(r, connected, stamped_at)->0,
            later_connected,
            later,
        ) is None,
{
}

/// A guild that is connected, or that already has an expiration that has not
/// passed, is left as it is.
pub proof fn lemma_sweep_leaves_active(r: GuildRecord, connected: Seq<u64>, now: i64)
    requires
        match r.expiration {
            Some(at) => at >= now,
            None => connected.contains(r.id),
        },
    ensures
        spec_after_sweep(r, connected, now) == Some(r),
{
}

/// No two rows of the table are about the same guild.
pub open spec fn distinct_guilds(table: Seq<GuildRecord>) -> bool {
    forall|i: int, j: int| 0 <= i < j < table.len() ==> table[i].id != table[j].id
}

/// Whether the sweep leaves `r` for some row of the table.
pub open spec fn leaves_row(
    table: Seq<GuildRecord>,
    connected: Seq<u64>,
    now: i64,
    r: GuildRecord,
) -> bool {
    exists|i: int|
        0 <= i < table.len() && spec_after_sweep(#[trigger] table[i], connected, now) == Some(r)
}

/// Whether the sweep deletes some row of the table that is about `guild`.
pub open spec fn deletes_guild(
    table: Seq<GuildRecord>,
    connected: Seq<u64>,
    now: i64,
    guild: u64,
) -> bool {
    exists|i: int|
        0 <= i < table.len() && (#[trigger] table[i]).id == guild && spec_after_sweep(
            table[i],
            connected,
            now,
        ) is None
}

/// A sweep deals with every row on its own, whatever the table holds: a row
/// stays, as the sweep leaves it, or its guild is among the deleted ones;
/// nothing else stays and no other guild is deleted.
pub proof fn lemma_sweep_by_rows(table: Seq<GuildRecord>, connected: Seq<u64>, now: i64)
    ensures
        spec_swept(table, connected, now).len() + spec_purged(table, connected, now).len()
            == table.len(),
        forall|r: GuildRecord|
            spec_swept(table, connected, now).contains(r) <==> leaves_row(table, connected, now, r),
        forall|g: u64|
            spec_purged(table, connected, now).contains(g) <==> deletes_guild(
                table,
                connected,
                now,
                g,
            ),
    decreases table.len(),
{
    let swept = spec_swept(table, connected, now);
    let purged = spec_purged(table, connected, now);
    if table.len() == 0 {
        assert forall|r: GuildRecord| swept.contains(r) <==> leaves_row(
            table,
            connected,
            now,
            r,
        ) by {}
        assert forall|g: u64| purged.contains(g) <==> deletes_guild(table, connected, now, g) by {}
    } else {
        let rest = table.drop_last();
        let last = table.last();
        lemma_sweep_by_rows(rest, connected, now);
        let swept_rest = spec_swept(rest, connected, now);
        let purged_rest = spec_purged(rest, connected, now);
        let left = spec_after_sweep(last, connected, now);
        assert(table[table.len() - 1] == last);
        assert forall|r: GuildRecord| swept.contains(r) <==> leaves_row(
            table,
            connected,
            now,
            r,
        ) by {
            assert(swept_rest.contains(r) <==> leaves_row(rest, connected, now, r));
            if swept.contains(r) {
                let k = choose|k: int| 0 <= k < swept.len() && swept[k] == r;
                if k < swept_rest.len() {
                    assert(swept_rest[k] == r);
                    let i = choose|i: int|
                        0 <= i < rest.len() && spec_after_sweep(
                            #[trigger] rest[i],
                            connected,
                            now,
                        ) == Some(r);
                    assert(table[i] == rest[i]);
                } else {
                    assert(left == Some(r));
                }
            }
            if leaves_row(table, connected, now, r) {
                let i = choose|i: int|
                    0 <= i < table.len() && spec_after_sweep(#[trigger] table[i], connected, now)
                        == Some(r);
                if i < rest.len() {
                    assert(rest[i] == table[i]);
                    assert(leaves_row(rest, connected, now, r));
                    let k = choose|k: int| 0 <= k < swept_rest.len() && swept_rest[k] == r;
                    assert(swept[k] == r);
                } else {
                    assert(swept[swept.len() - 1] == r);
                }
            }
        }
        assert forall|g: u64| purged.contains(g) <==> deletes_guild(table, connected, now, g) by {
            assert(purged_rest.contains(g) <==> deletes_guild(rest, connected, now, g));
            if purged.contains(g) {
                let k = choose|k: int| 0 <= k < purged.len() && purged[k] == g;
                if k < purged_rest.len() {
                    assert(purged_rest[k] == g);
                    let i = choose|i: int|
                        0 <= i < rest.len() && (#[trigger] rest[i]).id == g && spec_after_sweep(
                            rest[i],
                            connected,
                            now,
                        ) is None;
                    assert(table[i] == rest[i]);
                } else {
                    assert(left is None && last.id == g);
                }
            }
            if deletes_guild(table, connected, now, g) {
                let i = choose|i: int|
                    0 <= i < table.len() && (#[trigger] table[i]).id == g && spec_after_sweep(
                        table[i],
                        connected,
                        now,
                    ) is None;
                if i < rest.len() {
                    assert(rest[i] == table[i]);
                    assert(deletes_guild(rest, connected, now, g));
                    let k = choose|k: int| 0 <= k < purged_rest.len() && purged_rest[k] == g;
                    assert(purged[k] == g);
                } else {
                    assert(purged[purged.len() - 1] == g);
                }
            }
        }
    }
}

/// Where no two rows are about the same guild, no guild is deleted twice: a
/// deleted guild gets exactly one notice.
pub proof fn lemma_purged_once(table: Seq<GuildRecord>, connected: Seq<u64>, now: i64)
    requires
        distinct_guilds(table),
    ensures
        spec_purged(table, connected, now).no_duplicates(),
    decreases table.len(),
{
    if table.len() > 0 {
        let rest = table.drop_last();
        assert(distinct_guilds(rest)) by {
            assert forall|i: int, j: int| 0 <= i < j < rest.len() implies rest[i].id
                != rest[j].id by {
                assert(rest[i] == table[i] && rest[j] == table[j]);
            }
        }
        lemma_purged_once(rest, connected, now);
        lemma_sweep_by_rows(rest, connected, now);
        let purged = spec_purged(table, connected, now);
        let purged_rest = spec_purged(rest, connected, now);
        assert forall|a: int, b: int| 0 <= a < purged.len() && 0 <= b < purged.len() && a
            != b implies purged[a] != purged[b] by {
            let lo = if a < b {
                a
            } else {
                b
            };
            let hi = if a < b {
                b
            } else {
                a
            };
            if hi < purged_rest.len() {
                assert(purged[lo] == purged_rest[lo] && purged[hi] == purged_rest[hi]);
            } else {
                assert(purged[hi] == table.last().id);
                assert(purged[lo] == purged_rest[lo]);
                assert(purged_rest.contains(purged_rest[lo]));
                assert(deletes_guild(rest, connected, now, purged_rest[lo]));
                let i = choose|i: int|
                    0 <= i < rest.len() && (#[trigger] rest[i]).id == purged_rest[lo]
                        && spec_after_sweep(rest[i], connected, now) is None;
                assert(rest[i] == table[i]);
                assert(table[i].id != table[table.len() - 1].id);
            }
        }
    }
}

/// What a sweep does about one guild of a table without repeats. A guild
/// without expiration that is not connected keeps its row, stamped ninety
/// days ahead, and gets no notice. A guild whose expiration has not passed,
/// or which is connected, keeps its row as it is and gets no notice. A guild
/// whose expiration has passed loses its row and gets a notice.
pub proof fn lemma_sweep_of_guild(
    table: Seq<GuildRecord>,
    connected: Seq<u64>,
    now: i64,
    i: int,
)
    requires
        distinct_guilds(table),
        0 <= i < table.len(),
    ensures
        match spec_after_sweep(table[i], connected, now) {
            Some(left) => {
                &&& spec_swept(table, connected, now).contains(left)
                &&& !spec_purged(table, connected, now).contains(table[i].id)
            },
            None => {
                &&& spec_purged(table, connected, now).contains(table[i].id)
                &&& forall|r: GuildRecord|
                    spec_swept(table, connected, now).contains(r) ==> r.id != table[i].id
            },
        },
        spec_after_sweep(table[i], connected, now) == (match table[i].expiration {
            None => Some(
                if connected.contains(table[i].id) {
                    table[i]
                } else {
                    GuildRecord { id: table[i].id, expiration: Some((now + GRACE_SECONDS) as i64) }
                },
            ),
            Some(at) => if at < now {
                None
            } else {
                Some(table[i])
            },
        }),
{
    lemma_sweep_by_rows(table, connected, now);
    let swept = spec_swept(table, connected, now);
    let purged = spec_purged(table, connected, now);
    let row = table[i];
    match spec_after_sweep(row, connected, now) {
        Some(left) => {
            assert(leaves_row(table, connected, now, left));
            if purged.contains(row.id) {
                assert(deletes_guild(table, connected, now, row.id));
                let j = choose|j: int|
                    0 <= j < table.len() && (#[trigger] table[j]).id == row.id && spec_after_sweep(
                        table[j],
                        connected,
                        now,
                    ) is None;
                if j < i {
                    assert(table[j].id != table[i].id);
                } else if i < j {
                    assert(table[i].id != table[j].id);
                }
            }
        },
        None => {
            assert(deletes_guild(table, connected, now, row.id));
            assert forall|r: GuildRecord| swept.contains(r) implies r.id != row.id by {
                assert(leaves_row(table, connected, now, r));
                let j = choose|j: int|
                    0 <= j < table.len() && spec_after_sweep(#[trigger] table[j], connected, now)
                        == Some(r);
                assert(r.id == table[j].id);
                if j < i {
                    assert(table[j].id != table[i].id);
                } else if i < j {
                    assert(table[i].id != table[j].id);
                }
            }
        },
    }
}

} // verus!
