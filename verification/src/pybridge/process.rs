//! The request bookkeeping of the Python process: request ids, the
//! requests waiting for a reply, and the errors a request ends with.  The
//! process, its pipes and the timers are the caller's.

use vstd::prelude::*;
use crate::pybridge::types::PyBridgeError;
use crate::text::{lit, same_str};
use crate::command::prefixed;

verus! {

/// The ids listed in `s`.
pub open spec fn id_set(s: Seq<u64>) -> Set<u64> {
    Set::new(|x: u64| exists|i: int| 0 <= i < s.len() && s[i] == x)
}

/// Request ids and the requests still waiting for a reply.
pub struct RpcTable {
    next_id: u64,
    pending: Vec<u64>,
}

impl RpcTable {
    /// The id the next request gets.
    pub closed spec fn next(&self) -> u64 {
        self.next_id
    }

    /// The requests waiting for a reply.
    pub closed spec fn waiting(&self) -> Set<u64> {
        id_set(self.pending@)
    }

    /// Every waiting request has an id below the next one, and is listed
    /// once.
    pub closed spec fn wf(&self) -> bool {
        &&& forall|i: int| 0 <= i < self.pending@.len() ==> self.pending@[i] < self.next_id
        &&& forall|a: int, b: int| 0 <= a < b < self.pending@.len() ==> self.pending@[a] != self.pending@[b]
        &&& self.next_id >= 1
    }

    /// Ids start at 1; nothing waits.
    pub fn new() -> (r: Self)
        ensures
            r.wf(),
            r.next() == 1,
            r.waiting() == Set::<u64>::empty(),
    {
        let r = RpcTable { next_id: 1, pending: Vec::new() };
        assert(r.waiting() =~= Set::<u64>::empty());
        r
    }

    /// Gives the next request its id and records it as waiting.
    pub fn issue(&mut self) -> (id: u64)
        requires
            old(self).wf(),
            old(self).next() < u64::MAX,
        ensures
            final(self).wf(),
            id == old(self).next(),
            !old(self).waiting().contains(id),
            final(self).next() == id + 1,
            final(self).waiting() == old(self).waiting().insert(id),
    {
        let id = self.next_id;
        let ghost before = self.pending@;
        self.pending.push(id);
        self.next_id = id + 1;
        proof {
            let after = self.pending@;
            assert(!id_set(before).contains(id)) by {
                if id_set(before).contains(id) {
                    let i = choose|i: int| 0 <= i < before.len() && before[i] == id;
                }
            }
            assert forall|x: u64| id_set(after).contains(x) == id_set(before).insert(id).contains(x) by {
                if id_set(before).contains(x) {
                    let i = choose|i: int| 0 <= i < before.len() && before[i] == x;
                    assert(after[i] == x);
                }
                if x == id {
                    assert(after[before.len() as int] == x);
                }
                if id_set(after).contains(x) {
                    let i = choose|i: int| 0 <= i < after.len() && after[i] == x;
                    if i < before.len() {
                        assert(after[i] == before[i]);
                    }
                }
            }
            assert(id_set(after) =~= id_set(before).insert(id));
            assert forall|a: int, b: int| 0 <= a < b < after.len() implies after[a] != after[b] by {
                if b == before.len() {
                    assert(after[a] == before[a]);
                } else {
                    assert(after[a] == before[a] && after[b] == before[b]);
                }
            }
        }
        id
    }

    /// Ends the wait of request `id`, when its reply came or it timed out;
    /// true when it was waiting.
    pub fn resolve(&mut self, id: u64) -> (was_waiting: bool)
        requires
            old(self).wf(),
        ensures
            final(self).wf(),
            was_waiting == old(self).waiting().contains(id),
            final(self).waiting() == old(self).waiting().remove(id),
            final(self).next() == old(self).next(),
    {
        let mut ids: Vec<u64> = Vec::new();
        std::mem::swap(&mut ids, &mut self.pending);
        let ghost all = ids@;
        let mut kept: Vec<u64> = Vec::new();
        let mut found = false;
        let mut i: usize = 0;
        while i < ids.len()
            invariant
                ids@ == all,
                i <= all.len(),
                found == exists|j: int| 0 <= j < i && all[j] == id,
                id_set(kept@) == id_set(all.take(i as int)).remove(id),
                forall|a: int| 0 <= a < kept@.len() ==> kept@[a] < self.next_id,
                forall|j: int| 0 <= j < all.len() ==> all[j] < self.next_id,
                forall|a: int, b: int| 0 <= a < b < kept@.len() ==> kept@[a] != kept@[b],
                forall|a: int, b: int| 0 <= a < b < all.len() ==> all[a] != all[b],
            decreases all.len() - i,
        {
            let x = ids[i];
            let ghost before = kept@;
            let ghost t = all.take(i + 1);
            assert(t.drop_last() =~= all.take(i as int));
            if x == id {
                found = true;
            } else {
                kept.push(x);
            }
            proof {
                let after = kept@;
                assert forall|y: u64| id_set(after).contains(y) == id_set(t).remove(id).contains(y) by {
                    if id_set(after).contains(y) {
                        let a = choose|a: int| 0 <= a < after.len() && after[a] == y;
                        if a < before.len() {
                            assert(after[a] == before[a]);
                            assert(id_set(before).contains(y));
                            let j = choose|j: int| 0 <= j < all.take(i as int).len() && all.take(i as int)[j] == y;
                            assert(t[j] == y);
                        } else {
                            assert(t[i as int] == y);
                        }
                    }
                    if id_set(t).remove(id).contains(y) {
                        let j = choose|j: int| 0 <= j < t.len() && t[j] == y;
                        if j < i {
                            assert(all.take(i as int)[j] == y);
                            assert(id_set(before).contains(y));
                            let a = choose|a: int| 0 <= a < before.len() && before[a] == y;
                            assert(after[a] == y);
                        } else {
                            assert(after[before.len() as int] == y);
                        }
                    }
                }
                assert(id_set(after) =~= id_set(t).remove(id));
                assert forall|a: int| 0 <= a < after.len() implies after[a] < self.next_id by {
                    if a < before.len() {
                        assert(after[a] == before[a]);
                    }
                }
                assert forall|a: int, b: int| 0 <= a < b < after.len() implies after[a] != after[b] by {
                    if b == before.len() && x != id {
                        assert(after[a] == before[a]);
                        assert(id_set(before).contains(before[a]));
                        assert(id_set(all.take(i as int)).contains(before[a]));
                        let j = choose|j: int| 0 <= j < all.take(i as int).len() && all.take(i as int)[j] == before[a];
                        assert(all[j] != all[i as int]);
                    } else {
                        assert(after[a] == before[a] && after[b] == before[b]);
                    }
                }
            }
            i += 1;
        }
        assert(all.take(all.len() as int) =~= all);
        proof {
            if found {
                let j = choose|j: int| 0 <= j < all.len() && all[j] == id;
                assert(id_set(all).contains(id));
            }
            if id_set(all).contains(id) {
                let j = choose|j: int| 0 <= j < all.len() && all[j] == id;
            }
        }
        self.pending = kept;
        found
    }

    /// Ends every wait, as when the process stops; the ids that were waiting,
    /// each once.
    pub fn drain(&mut self) -> (ids: Vec<u64>)
        requires
            old(self).wf(),
        ensures
            final(self).wf(),
            id_set(ids@) == old(self).waiting(),
            forall|a: int, b: int| 0 <= a < b < ids@.len() ==> ids@[a] != ids@[b],
            final(self).waiting() == Set::<u64>::empty(),
            final(self).next() == old(self).next(),
    {
        let mut ids: Vec<u64> = Vec::new();
        std::mem::swap(&mut ids, &mut self.pending);
        assert(self.waiting() =~= Set::<u64>::empty());
        ids
    }
}

/// The error of a request whose reply did not come in time.
pub fn timeout_error() -> (r: PyBridgeError)
    ensures
        r is Timeout,
{
    PyBridgeError::Timeout
}

/// The error of a request whose reply channel closed.
pub fn closed_channel_error() -> (r: PyBridgeError)
    ensures
        r matches PyBridgeError::Other(m) && m@ == "响应通道已关闭"@,
{
    PyBridgeError::Other(lit("响应通道已关闭"))
}

/// The error of a request that could not be sent, for the reason given.
pub fn send_failed_error(reason: &str) -> (r: PyBridgeError)
    ensures
        r matches PyBridgeError::Other(m) && m@ == "发送请求失败: "@ + reason@,
{
    PyBridgeError::Other(prefixed("发送请求失败: ", reason))
}

/// The error every waiting request ends with when the process stops.
pub fn stopped_error() -> (r: PyBridgeError)
    ensures
        r matches PyBridgeError::Other(m) && m@ == "进程已停止"@,
{
    PyBridgeError::Other(lit("进程已停止"))
}

/// The outcome of starting the Python process, from what spawning it
/// reported: a spawn error `spawn_error` fails the start with that text;
/// else a missing standard input, output or error pipe (checked in that
/// order) fails it with `无法获取 stdin`, `无法获取 stdout` or `无法获取 stderr`;
/// else the start succeeds.  The start-up health check that follows is
/// waited for but never fails the start.
pub fn start_outcome(spawn_error: Option<&str>, has_stdin: bool, has_stdout: bool, has_stderr: bool) -> (r: Result<
    (),
    PyBridgeError,
>)
    ensures
        match spawn_error {
            Some(e) => r matches Err(PyBridgeError::StartFailed(m)) && m@ == e@,
            None => if !has_stdin {
                r matches Err(PyBridgeError::StartFailed(m)) && m@ == "无法获取 stdin"@
            } else if !has_stdout {
                r matches Err(PyBridgeError::StartFailed(m)) && m@ == "无法获取 stdout"@
            } else if !has_stderr {
                r matches Err(PyBridgeError::StartFailed(m)) && m@ == "无法获取 stderr"@
            } else {
                r is Ok
            },
        },
{
    match spawn_error {
        Some(e) => Err(PyBridgeError::StartFailed(lit(e))),
        None => {
            if !has_stdin {
                Err(PyBridgeError::StartFailed(lit("无法获取 stdin")))
            } else if !has_stdout {
                Err(PyBridgeError::StartFailed(lit("无法获取 stdout")))
            } else if !has_stderr {
                Err(PyBridgeError::StartFailed(lit("无法获取 stderr")))
            } else {
                Ok(())
            }
        },
    }
}

/// The outcome of a health check whose reply carries `status`: healthy only
/// when the status is the text `ok`.
pub fn health_outcome(status: Option<&str>) -> (r: Result<(), PyBridgeError>)
    ensures
        match status {
            Some(s) if s@ == "ok"@ => r is Ok,
            _ => r matches Err(PyBridgeError::Other(m)) && m@ == "健康检查返回异常"@,
        },
{
    match status {
        Some(s) => {
            if same_str(s, "ok") {
                Ok(())
            } else {
                Err(PyBridgeError::Other(lit("健康检查返回异常")))
            }
        },
        None => Err(PyBridgeError::Other(lit("健康检查返回异常"))),
    }
}

/// A request id is never handed out twice: each one is the table's next id,
/// which only grows, so ids issued later are larger.
pub proof fn law_ids_unique(first: u64, next_after_first: u64, later: u64)
    requires
        next_after_first == first + 1,
        later >= next_after_first,
    ensures
        later != first,
        later > first,
{
}

} // verus!
