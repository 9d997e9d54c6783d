//! Keyboard accelerators: records keyed by the command they trigger.
use vstd::prelude::*;

verus! {

/// A keyboard shortcut bound to a command: virtual-key flags, key code and
/// the command id it dispatches.
#[derive(Clone, Copy, Debug, PartialEq, Eq, Structural)]
pub struct Accel {
    pub fvirt: u8,
    pub key: u16,
    pub cmd: u16,
}

/// No two records of the table share a command id.
pub open spec fn keys_unique(s: Seq<Accel>) -> bool {
    forall|i: int, j: int|
        0 <= i < s.len() && 0 <= j < s.len() && i != j ==> #[trigger] s[i].cmd != #[trigger] s[j].cmd
}

/// Whether some record of the table has command id `k`.
pub open spec fn has_cmd(s: Seq<Accel>, k: u16) -> bool {
    exists|i: int| 0 <= i < s.len() && #[trigger] s[i].cmd == k
}

/// The table as a map from command id to record.
pub open spec fn table_map(s: Seq<Accel>) -> Map<u16, Accel> {
    Map::new(
        |k: u16| has_cmd(s, k),
        |k: u16| s[choose|i: int| 0 <= i < s.len() && #[trigger] s[i].cmd == k],
    )
}

/// With unique keys, each record is what the map holds under its command id.
pub proof fn lemma_table_map_at(s: Seq<Accel>, i: int)
    requires
        keys_unique(s),
        0 <= i < s.len(),
    ensures
        table_map(s).contains_key(s[i].cmd),
        table_map(s)[s[i].cmd] == s[i],
{
    assert(has_cmd(s, s[i].cmd));
    let j = choose|j: int| 0 <= j < s.len() && #[trigger] s[j].cmd == s[i].cmd;
    assert(s[j].cmd == s[i].cmd);
}

/// The map of a table is empty exactly when the table is.
pub proof fn lemma_table_map_empty(s: Seq<Accel>)
    ensures
        (table_map(s) == Map::<u16, Accel>::empty()) <==> s.len() == 0,
{
    if s.len() == 0 {
        assert(table_map(s) =~= Map::<u16, Accel>::empty());
    } else {
        assert(has_cmd(s, s[0].cmd));
        assert(table_map(s).contains_key(s[0].cmd));
    }
}

/// With unique keys, the map has one key per record.
pub proof fn lemma_table_map_len(s: Seq<Accel>)
    requires
        keys_unique(s),
    ensures
        table_map(s).dom().finite(),
        table_map(s).dom().len() == s.len(),
    decreases s.len(),
{
    if s.len() == 0 {
        lemma_table_map_empty(s);
    } else {
        let p = s.drop_last();
        let a = s.last();
        assert(keys_unique(p));
        if has_cmd(p, a.cmd) {
            let j = choose|j: int| 0 <= j < p.len() && #[trigger] p[j].cmd == a.cmd;
            assert(s[j].cmd == s[s.len() - 1].cmd);
        }
        lemma_table_map_len(p);
        lemma_table_map_push(p, a);
        assert(p.push(a) =~= s);
        assert(!table_map(p).dom().contains(a.cmd));
        assert(table_map(s).dom() =~= table_map(p).dom().insert(a.cmd));
    }
}

/// Appending a record with a fresh command id adds it to the map.
pub proof fn lemma_table_map_push(s: Seq<Accel>, a: Accel)
    requires
        keys_unique(s),
        !has_cmd(s, a.cmd),
    ensures
        keys_unique(s.push(a)),
        table_map(s.push(a)) == table_map(s).insert(a.cmd, a),
{
    let t = s.push(a);
    assert forall|i: int, j: int|
        0 <= i < t.len() && 0 <= j < t.len() && i != j implies #[trigger] t[i].cmd != #[trigger] t[j].cmd by {
        if i < s.len() && j < s.len() {
            assert(t[i] == s[i] && t[j] == s[j]);
        } else if i < s.len() {
            assert(t[i] == s[i]);
        } else {
            assert(t[j] == s[j]);
        }
    }
    assert forall|k: u16| #[trigger] has_cmd(t, k) == (has_cmd(s, k) || k == a.cmd) by {
        if has_cmd(s, k) {
            let i = choose|i: int| 0 <= i < s.len() && #[trigger] s[i].cmd == k;
            assert(t[i] == s[i]);
        }
        if k == a.cmd {
            assert(t[s.len() as int] == a);
        }
        if has_cmd(t, k) && k != a.cmd {
            let i = choose|i: int| 0 <= i < t.len() && #[trigger] t[i].cmd == k;
            assert(i < s.len());
            assert(s[i] == t[i]);
        }
    }
    assert forall|k: u16| #[trigger] table_map(t).contains_key(k) implies table_map(t)[k]
        == table_map(s).insert(a.cmd, a)[k] by {
        if k == a.cmd {
            lemma_table_map_at(t, s.len() as int);
        } else {
            let i = choose|i: int| 0 <= i < s.len() && #[trigger] s[i].cmd == k;
            lemma_table_map_at(s, i);
            assert(t[i] == s[i]);
            lemma_table_map_at(t, i);
        }
    }
    assert(table_map(t) =~= table_map(s).insert(a.cmd, a));
}

/// Replacing the record at `j` by one with the same command id updates the
/// map at that key.
pub proof fn lemma_table_map_update(s: Seq<Accel>, j: int, a: Accel)
    requires
        keys_unique(s),
        0 <= j < s.len(),
        s[j].cmd == a.cmd,
    ensures
        keys_unique(s.update(j, a)),
        table_map(s.update(j, a)) == table_map(s).insert(a.cmd, a),
{
    let t = s.update(j, a);
    assert forall|i: int, l: int|
        0 <= i < t.len() && 0 <= l < t.len() && i != l implies #[trigger] t[i].cmd != #[trigger] t[l].cmd by {
        assert(t[i].cmd == s[i].cmd && t[l].cmd == s[l].cmd);
    }
    assert forall|k: u16| #[trigger] has_cmd(t, k) == has_cmd(s, k) by {
        if has_cmd(s, k) {
            let i = choose|i: int| 0 <= i < s.len() && #[trigger] s[i].cmd == k;
            assert(t[i].cmd == s[i].cmd);
        }
        if has_cmd(t, k) {
            let i = choose|i: int| 0 <= i < t.len() && #[trigger] t[i].cmd == k;
            assert(t[i].cmd == s[i].cmd);
        }
    }
    assert(has_cmd(s, a.cmd) && has_cmd(t, a.cmd) && t[j] == a);
    assert forall|k: u16| #[trigger] table_map(t).contains_key(k) implies table_map(t)[k]
        == table_map(s).insert(a.cmd, a)[k] by {
        if k == a.cmd {
            lemma_table_map_at(t, j);
        } else {
            let i = choose|i: int| 0 <= i < s.len() && #[trigger] s[i].cmd == k;
            lemma_table_map_at(s, i);
            assert(t[i] == s[i]);
            lemma_table_map_at(t, i);
        }
    }
    assert(table_map(t) =~= table_map(s).insert(a.cmd, a));
}

/// Records `a` under its command id: a record already held under that id is
/// replaced, otherwise `a` is appended.
pub fn insert_accel(table: &mut Vec<Accel>, a: Accel)
    requires
        keys_unique(old(table)@),
    ensures
        keys_unique(final(table)@),
        table_map(final(table)@) == table_map(old(table)@).insert(a.cmd, a),
{
    let n = table.len();
    let mut j: usize = 0;
    while j < n
        invariant
            n == table.len(),
            table@ == old(table)@,
            keys_unique(table@),
            j <= n,
            forall|i: int| 0 <= i < j ==> #[trigger] table@[i].cmd != a.cmd,
        decreases n - j,
    {
        if table[j].cmd == a.cmd {
            proof {
                lemma_table_map_update(table@, j as int, a);
            }
            table.set(j, a);
            return;
        }
        j = j + 1;
    }
    proof {
        lemma_table_map_push(table@, a);
    }
    table.push(a);
}

} // verus!
