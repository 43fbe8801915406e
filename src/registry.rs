//! The saved connections: at most one monitored site per chat, replaced on reconnect
//! and dropped on disconnect.
use vstd::prelude::*;

verus! {

pub type TelegramId = i64;

/// One saved connection.
#[derive(Debug, Clone, PartialEq)]
pub struct Monitor {
    pub telegram_id: u64,
    pub monitor_url: String,
    pub notification_token: Option<String>,
}

/// No chat has two rows.
pub open spec fn ids_unique(rows: Seq<Monitor>) -> bool {
    forall|i: int, j: int|
        0 <= i < j < rows.len() ==> #[trigger] rows[i].telegram_id != #[trigger] rows[j].telegram_id
}

/// The row of chat `id`, if there is one.
pub open spec fn row_of(rows: Seq<Monitor>, id: u64) -> Option<Monitor> {
    if exists|i: int| 0 <= i < rows.len() && #[trigger] rows[i].telegram_id == id {
        Some(rows[choose|i: int| 0 <= i < rows.len() && #[trigger] rows[i].telegram_id == id])
    } else {
        None
    }
}

proof fn lemma_row_at(rows: Seq<Monitor>, i: int)
    requires
        ids_unique(rows),
        0 <= i < rows.len(),
    ensures
        row_of(rows, rows[i].telegram_id) == Some(rows[i]),
{
    let id = rows[i].telegram_id;
    let c = choose|c: int| 0 <= c < rows.len() && #[trigger] rows[c].telegram_id == id;
    assert(0 <= c < rows.len() && rows[c].telegram_id == id);
    if c < i {
        assert(rows[c].telegram_id != rows[i].telegram_id);
    } else if c > i {
        assert(rows[i].telegram_id != rows[c].telegram_id);
    }
}

proof fn lemma_no_row(rows: Seq<Monitor>, id: u64)
    requires
        forall|i: int| 0 <= i < rows.len() ==> #[trigger] rows[i].telegram_id != id,
    ensures
        row_of(rows, id) is None,
{
}

/// Rows whose ids agree where they differ in content keep every other chat's row.
proof fn lemma_same_elsewhere(a: Seq<Monitor>, b: Seq<Monitor>, k: u64)
    requires
        ids_unique(a),
        ids_unique(b),
        forall|i: int|
            0 <= i < a.len() && #[trigger] a[i].telegram_id == k ==> exists|j: int|
                0 <= j < b.len() && #[trigger] b[j] == a[i],
        forall|j: int|
            0 <= j < b.len() && #[trigger] b[j].telegram_id == k ==> exists|i: int|
                0 <= i < a.len() && #[trigger] a[i] == b[j],
    ensures
        row_of(a, k) == row_of(b, k),
{
    if exists|i: int| 0 <= i < a.len() && #[trigger] a[i].telegram_id == k {
        let i = choose|i: int| 0 <= i < a.len() && #[trigger] a[i].telegram_id == k;
        let j = choose|j: int| 0 <= j < b.len() && #[trigger] b[j] == a[i];
        lemma_row_at(a, i);
        lemma_row_at(b, j);
    } else if exists|j: int| 0 <= j < b.len() && #[trigger] b[j].telegram_id == k {
        let j = choose|j: int| 0 <= j < b.len() && #[trigger] b[j].telegram_id == k;
        let i = choose|i: int| 0 <= i < a.len() && #[trigger] a[i] == b[j];
        assert(a[i].telegram_id == k);
    }
}

/// The saved connections, one row per chat.
pub struct MonitorRegistry {
    rows: Vec<Monitor>,
}

impl MonitorRegistry {
    /// The rows in the order they are kept.
    pub closed spec fn rows(&self) -> Seq<Monitor> {
        self.rows@
    }

    pub open spec fn wf(&self) -> bool {
        ids_unique(self.rows())
    }

    /// The row of chat `id`, if there is one.
    pub open spec fn row(&self, id: u64) -> Option<Monitor> {
        row_of(self.rows(), id)
    }

    /// A registry without rows.
    pub fn new() -> (r: Self)
        ensures
            r.wf(),
            forall|id: u64| r.row(id) is None,
    {
        MonitorRegistry { rows: Vec::new() }
    }

    fn position(&self, id: u64) -> (r: Option<usize>)
        ensures
            r is Some ==> r->Some_0 < self.rows().len() && self.rows()[r->Some_0 as int].telegram_id
                == id,
            r is None ==> forall|i: int|
                0 <= i < self.rows().len() ==> #[trigger] self.rows()[i].telegram_id != id,
    {
        let mut i: usize = 0;
        while i < self.rows.len()
            invariant
                i <= self.rows@.len(),
                forall|k: int| 0 <= k < i ==> #[trigger] self.rows@[k].telegram_id != id,
            decreases self.rows@.len() - i,
        {
            if self.rows[i].telegram_id == id {
                return Some(i);
            }
            i = i + 1;
        }
        None
    }

    /// The row of chat `id`.
    pub fn get(&self, id: u64) -> (r: Option<&Monitor>)
        requires
            self.wf(),
        ensures
            r is Some <==> self.row(id) is Some,
            r is Some ==> *r->Some_0 == self.row(id)->Some_0,
    {
        match self.position(id) {
            Some(i) => {
                proof {
                    lemma_row_at(self.rows(), i as int);
                }
                Some(&self.rows[i])
            },
            None => {
                proof {
                    lemma_no_row(self.rows(), id);
                }
                None
            },
        }
    }

    /// Saves `m` as the row of its chat, replacing the chat's earlier row.
    pub fn upsert(&mut self, m: Monitor)
        requires
            old(self).wf(),
        ensures
            final(self).wf(),
            final(self).row(m.telegram_id) == Some(m),
            forall|id: u64| id != m.telegram_id ==> final(self).row(id) == old(self).row(id),
    {
        let ghost before = self.rows@;
        let ghost mm = m;
        match self.position(m.telegram_id) {
            Some(i) => {
                self.rows.remove(i);
                self.rows.insert(i, m);
                proof {
                    let after = self.rows@;
                    assert(after =~= before.update(i as int, mm));
                    assert(ids_unique(after));
                    lemma_row_at(after, i as int);
                    assert forall|id: u64| id != mm.telegram_id implies row_of(after, id)
                        == row_of(before, id) by {
                        assert forall|x: int|
                            0 <= x < before.len() && #[trigger] before[x].telegram_id
                                == id implies exists|y: int|
                            0 <= y < after.len() && #[trigger] after[y] == before[x] by {
                            assert(after[x] == before[x]);
                        }
                        assert forall|y: int|
                            0 <= y < after.len() && #[trigger] after[y].telegram_id
                                == id implies exists|x: int|
                            0 <= x < before.len() && #[trigger] before[x] == after[y] by {
                            assert(before[y] == after[y]);
                        }
                        lemma_same_elsewhere(before, after, id);
                    }
                }
            },
            None => {
                self.rows.push(m);
                proof {
                    let after = self.rows@;
                    assert(after =~= before.push(mm));
                    assert(ids_unique(after));
                    lemma_row_at(after, before.len() as int);
                    assert forall|id: u64| id != mm.telegram_id implies row_of(after, id)
                        == row_of(before, id) by {
                        assert forall|x: int|
                            0 <= x < before.len() && #[trigger] before[x].telegram_id
                                == id implies exists|y: int|
                            0 <= y < after.len() && #[trigger] after[y] == before[x] by {
                            assert(after[x] == before[x]);
                        }
                        assert forall|y: int|
                            0 <= y < after.len() && #[trigger] after[y].telegram_id
                                == id implies exists|x: int|
                            0 <= x < before.len() && #[trigger] before[x] == after[y] by {
                            assert(before[y] == after[y]);
                        }
                        lemma_same_elsewhere(before, after, id);
                    }
                }
            },
        }
    }

    /// Drops the row of chat `id`, if there is one.
    pub fn remove(&mut self, id: u64)
        requires
            old(self).wf(),
        ensures
            final(self).wf(),
            final(self).row(id) is None,
            forall|k: u64| k != id ==> final(self).row(k) == old(self).row(k),
    {
        let ghost before = self.rows@;
        match self.position(id) {
            Some(i) => {
                self.rows.remove(i);
                proof {
                    let after = self.rows@;
                    assert(after =~= before.remove(i as int));
                    assert forall|a: int, b: int|
                        0 <= a < b < after.len() implies #[trigger] after[a].telegram_id
                        != #[trigger] after[b].telegram_id by {
                        let a0 = if a < i {
                            a
                        } else {
                            a + 1
                        };
                        let b0 = if b < i {
                            b
                        } else {
                            b + 1
                        };
                        assert(after[a] == before[a0]);
                        assert(after[b] == before[b0]);
                    }
                    assert forall|y: int| 0 <= y < after.len() implies #[trigger] after[y].telegram_id
                        != id by {
                        let y0 = if y < i {
                            y
                        } else {
                            y + 1
                        };
                        assert(after[y] == before[y0]);
                    }
                    lemma_no_row(after, id);
                    assert forall|k: u64| k != id implies row_of(after, k) == row_of(before, k) by {
                        assert forall|x: int|
                            0 <= x < before.len() && #[trigger] before[x].telegram_id
                                == k implies exists|y: int|
                            0 <= y < after.len() && #[trigger] after[y] == before[x] by {
                            let y = if x < i {
                                x
                            } else {
                                x - 1
                            };
                            assert(x != i);
                            assert(after[y] == before[x]);
                        }
                        assert forall|y: int|
                            0 <= y < after.len() && #[trigger] after[y].telegram_id
                                == k implies exists|x: int|
                            0 <= x < before.len() && #[trigger] before[x] == after[y] by {
                            let x = if y < i {
                                y
                            } else {
                                y + 1
                            };
                            assert(before[x] == after[y]);
                        }
                        lemma_same_elsewhere(before, after, k);
                    }
                }
            },
            None => {
                proof {
                    lemma_no_row(before, id);
                }
            },
        }
    }

    /// Every saved row, each chat once.
    pub fn monitors(&self) -> (r: &Vec<Monitor>)
        requires
            self.wf(),
        ensures
            forall|i: int|
                0 <= i < r@.len() ==> self.row(#[trigger] r@[i].telegram_id) == Some(r@[i]),
            forall|id: u64|
                self.row(id) is Some ==> exists|i: int|
                    0 <= i < r@.len() && #[trigger] r@[i].telegram_id == id,
    {
        proof {
            assert forall|i: int| 0 <= i < self.rows@.len() implies self.row(
                #[trigger] self.rows@[i].telegram_id,
            ) == Some(self.rows@[i]) by {
                lemma_row_at(self.rows@, i);
            }
        }
        &self.rows
    }
}

} // verus!
