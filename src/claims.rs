//! The claim relation: a member claims one character sheet within a community.
//!
//! Three uniqueness rules hold at every moment: no duplicate rows, one sheet per
//! (community, member), and one member per (community, sheet).
use vstd::prelude::*;

verus! {

/// One member's claim of one character sheet within one community.
pub struct SheetClaim {
    pub community_id: u64,
    pub member_id: u64,
    pub sheet_name: String,
}

/// A row of the relation as a mathematical value.
pub type ClaimRow = (u64, u64, Seq<char>);

impl SheetClaim {
    pub open spec fn view(&self) -> ClaimRow {
        (self.community_id, self.member_id, self.sheet_name@)
    }
}

/// Why a claim was refused.
#[derive(Debug, Clone, Copy, PartialEq, Eq)]
pub enum ClaimError {
    /// The sheet is already held by another member of the community.
    SheetAlreadyClaimed { community_id: u64, holder_id: u64 },
}

/// The relation rows, free of both key collisions.
pub open spec fn rows_unique(rows: Seq<ClaimRow>) -> bool {
    forall|i: int, j: int|
        0 <= i < rows.len() && 0 <= j < rows.len() && i != j ==> {
            &&& !(#[trigger] rows[i].0 == #[trigger] rows[j].0 && rows[i].1 == rows[j].1)
            &&& !(rows[i].0 == rows[j].0 && rows[i].2 == rows[j].2)
        }
}

/// Does row `i` belong to member `m` of community `c`?
pub open spec fn row_of(rows: Seq<ClaimRow>, i: int, c: u64, m: u64) -> bool {
    0 <= i < rows.len() && rows[i].0 == c && rows[i].1 == m
}

/// The sheet that member `m` holds in community `c`, if any.
pub open spec fn sheet_of(rows: Seq<ClaimRow>, c: u64, m: u64) -> Option<Seq<char>> {
    if exists|i: int| row_of(rows, i, c, m) {
        Some(rows[choose|i: int| row_of(rows, i, c, m)].2)
    } else {
        None
    }
}

/// Is sheet `s` of community `c` held by some member other than `m`?
pub open spec fn sheet_taken(rows: Seq<ClaimRow>, c: u64, m: u64, s: Seq<char>) -> bool {
    exists|m2: u64| m2 != m && #[trigger] sheet_of(rows, c, m2) == Some(s)
}

/// `after` is `before` with member `m` of community `c` now holding `s`, and no
/// other claim changed.
pub open spec fn stored_claim(
    before: Seq<ClaimRow>,
    after: Seq<ClaimRow>,
    c: u64,
    m: u64,
    s: Seq<char>,
) -> bool {
    forall|c2: u64, m2: u64|
        #[trigger] sheet_of(after, c2, m2) == if c2 == c && m2 == m {
            Some(s)
        } else {
            sheet_of(before, c2, m2)
        }
}

/// Under the uniqueness rules, the row found by its key is the one `sheet_of` reads.
proof fn lemma_sheet_of_row(rows: Seq<ClaimRow>, i: int, c: u64, m: u64)
    requires
        rows_unique(rows),
        row_of(rows, i, c, m),
    ensures
        sheet_of(rows, c, m) == Some(rows[i].2),
{
    let j = choose|j: int| row_of(rows, j, c, m);
    assert(row_of(rows, j, c, m));
    assert(rows[i].0 == rows[j].0);
}

/// Writing row `(c, m, s)` at `idx` (over the member's own row, or at the end)
/// keeps the relation free of key collisions when nobody else holds `s`.
proof fn lemma_unique_with(
    rows: Seq<ClaimRow>,
    new_rows: Seq<ClaimRow>,
    idx: int,
    c: u64,
    m: u64,
    s: Seq<char>,
)
    requires
        rows_unique(rows),
        0 <= idx <= rows.len(),
        idx < rows.len() ==> new_rows == rows.update(idx, (c, m, s)) && rows[idx].0 == c
            && rows[idx].1 == m,
        idx == rows.len() ==> new_rows == rows.push((c, m, s)),
        idx == rows.len() ==> forall|k: int| !row_of(rows, k, c, m),
        forall|k: int| 0 <= k < rows.len() ==> !(rows[k].0 == c && rows[k].1 != m && rows[k].2 == s),
    ensures
        rows_unique(new_rows),
{
    assert forall|i: int, j: int|
        0 <= i < new_rows.len() && 0 <= j < new_rows.len() && i != j implies {
        &&& !(#[trigger] new_rows[i].0 == #[trigger] new_rows[j].0 && new_rows[i].1 == new_rows[j].1)
        &&& !(new_rows[i].0 == new_rows[j].0 && new_rows[i].2 == new_rows[j].2)
    } by {
        if i != idx && j != idx {
            assert(rows[i].0 == rows[j].0 ==> rows[i].1 != rows[j].1);
        } else if i == idx {
            assert(!row_of(rows, j, c, m) || idx < rows.len());
            if idx < rows.len() {
                assert(rows[idx].0 == rows[j].0 ==> rows[idx].1 != rows[j].1);
            }
        } else {
            assert(!row_of(rows, i, c, m) || idx < rows.len());
            if idx < rows.len() {
                assert(rows[idx].0 == rows[i].0 ==> rows[idx].1 != rows[i].1);
            }
        }
    }
}

/// Writing row `(c, m, s)` at `idx` changes what `sheet_of` reads for the key
/// `(c, m)` alone.
proof fn lemma_replace(
    rows: Seq<ClaimRow>,
    new_rows: Seq<ClaimRow>,
    idx: int,
    c: u64,
    m: u64,
    s: Seq<char>,
)
    requires
        rows_unique(rows),
        rows_unique(new_rows),
        0 <= idx <= rows.len(),
        idx < rows.len() ==> new_rows == rows.update(idx, (c, m, s)) && rows[idx].0 == c
            && rows[idx].1 == m,
        idx == rows.len() ==> new_rows == rows.push((c, m, s)),
    ensures
        stored_claim(rows, new_rows, c, m, s),
{
    assert forall|c2: u64, m2: u64|
        #[trigger] sheet_of(new_rows, c2, m2) == if c2 == c && m2 == m {
            Some(s)
        } else {
            sheet_of(rows, c2, m2)
        } by {
        assert(new_rows[idx] == (c, m, s));
        if c2 == c && m2 == m {
            lemma_sheet_of_row(new_rows, idx, c, m);
        } else if exists|i: int| row_of(rows, i, c2, m2) {
            let i = choose|i: int| row_of(rows, i, c2, m2);
            assert(i != idx);
            assert(new_rows[i] == rows[i]);
            lemma_sheet_of_row(rows, i, c2, m2);
            lemma_sheet_of_row(new_rows, i, c2, m2);
        } else if exists|i: int| row_of(new_rows, i, c2, m2) {
            let i = choose|i: int| row_of(new_rows, i, c2, m2);
            assert(i != idx);
            assert(new_rows[i] == rows[i]);
            assert(row_of(rows, i, c2, m2));
        }
    }
}

/// The claim relation of one store.
pub struct SheetDB {
    rows: Vec<SheetClaim>,
}

impl SheetDB {
    /// The relation as a sequence of rows.
    pub closed spec fn rows(&self) -> Seq<ClaimRow> {
        self.rows@.map_values(|r: SheetClaim| r@)
    }

    pub closed spec fn wf(&self) -> bool {
        rows_unique(self.rows())
    }

    /// The sheet that member `m` holds in community `c`, if any.
    pub open spec fn spec_sheet(&self, c: u64, m: u64) -> Option<Seq<char>> {
        sheet_of(self.rows(), c, m)
    }

    /// An empty relation.
    pub fn new() -> (r: SheetDB)
        ensures
            r.wf(),
            forall|c: u64, m: u64| #[trigger] sheet_of(r.rows(), c, m) is None,
    {
        let r = SheetDB { rows: Vec::new() };
        assert(r.rows() =~= Seq::<ClaimRow>::empty());
        r
    }

    /// The number of claims held.
    pub fn len(&self) -> (r: usize)
        ensures
            r == self.rows().len(),
    {
        self.rows.len()
    }

    /// The sheet that `author_id` has claimed in `guild_id`, if any.
    pub fn get_sheet(&self, guild_id: u64, author_id: u64) -> (r: Option<String>)
        requires
            self.wf(),
        ensures
            r matches Some(s) ==> self.spec_sheet(guild_id, author_id) == Some(s@),
            r is None ==> self.spec_sheet(guild_id, author_id) is None,
    {
        let ghost rows = self.rows();
        let mut i: usize = 0;
        while i < self.rows.len()
            invariant
                rows == self.rows(),
                rows_unique(rows),
                i <= self.rows.len(),
                forall|k: int| 0 <= k < i ==> !row_of(rows, k, guild_id, author_id),
            decreases self.rows.len() - i,
        {
            let row = &self.rows[i];
            assert(rows[i as int] == row@);
            if row.community_id == guild_id && row.member_id == author_id {
                proof {
                    lemma_sheet_of_row(rows, i as int, guild_id, author_id);
                }
                return Some(row.sheet_name.clone());
            }
            i += 1;
        }
        assert(forall|k: int| !row_of(rows, k, guild_id, author_id));
        None
    }

    /// Claims `sheet` for `author_id` in `guild_id`, replacing the member's
    /// earlier claim there. Refused, with nothing changed, when another member of
    /// the community holds the sheet.
    pub fn store_sheet(&mut self, guild_id: u64, author_id: u64, sheet: &str) -> (r: Result<
        (),
        ClaimError,
    >)
        requires
            old(self).wf(),
        ensures
            final(self).wf(),
            r is Ok <==> !sheet_taken(old(self).rows(), guild_id, author_id, sheet@),
            r is Ok ==> stored_claim(old(self).rows(), final(self).rows(), guild_id, author_id, sheet@),
            r matches Err(ClaimError::SheetAlreadyClaimed { community_id, holder_id }) ==> {
                &&& community_id == guild_id
                &&& holder_id != author_id
                &&& old(self).spec_sheet(guild_id, holder_id) == Some(sheet@)
            },
            r is Err ==> final(self).rows() == old(self).rows(),
    {
        let ghost rows = self.rows();
        let name = sheet.to_owned();
        let mut found: Option<usize> = None;
        let mut i: usize = 0;
        while i < self.rows.len()
            invariant
                rows == self.rows(),
                rows_unique(rows),
                name@ == sheet@,
                i <= self.rows.len(),
                found matches Some(k) ==> k < i && row_of(rows, k as int, guild_id, author_id),
                found is None ==> forall|k: int| 0 <= k < i ==> !row_of(rows, k, guild_id, author_id),
                forall|k: int|
                    0 <= k < i ==> !(rows[k].0 == guild_id && rows[k].1 != author_id && rows[k].2
                        == sheet@),
            decreases self.rows.len() - i,
        {
            let row = &self.rows[i];
            assert(rows[i as int] == row@);
            if row.community_id == guild_id {
                if row.member_id == author_id {
                    found = Some(i);
                } else if row.sheet_name == name {
                    proof {
                        lemma_sheet_of_row(rows, i as int, guild_id, row.member_id);
                        assert(row.sheet_name@ == sheet@);
                        assert(sheet_of(rows, guild_id, row.member_id) == Some(sheet@));
                    }
                    return Err(
                        ClaimError::SheetAlreadyClaimed {
                            community_id: guild_id,
                            holder_id: row.member_id,
                        },
                    );
                }
            }
            i += 1;
        }
        proof {
            assert forall|m2: u64| m2 != author_id implies #[trigger] sheet_of(rows, guild_id, m2)
                != Some(sheet@) by {
                if exists|k: int| row_of(rows, k, guild_id, m2) {
                    let k = choose|k: int| row_of(rows, k, guild_id, m2);
                    assert(!(rows[k].0 == guild_id && rows[k].1 != author_id && rows[k].2
                        == sheet@));
                }
            }
        }
        let claim = SheetClaim {
            community_id: guild_id,
            member_id: author_id,
            sheet_name: name,
        };
        let ghost s = sheet@;
        let ghost new_row: ClaimRow = (guild_id, author_id, s);
        assert(claim@ == new_row);
        match found {
            Some(k) => {
                self.rows.set(k, claim);
                proof {
                    let new_rows = self.rows();
                    assert(new_rows =~= rows.update(k as int, new_row));
                    lemma_unique_with(rows, new_rows, k as int, guild_id, author_id, s);
                    lemma_replace(rows, new_rows, k as int, guild_id, author_id, s);
                }
            },
            None => {
                self.rows.push(claim);
                proof {
                    let new_rows = self.rows();
                    assert(new_rows =~= rows.push(new_row));
                    lemma_unique_with(rows, new_rows, rows.len() as int, guild_id, author_id, s);
                    lemma_replace(rows, new_rows, rows.len() as int, guild_id, author_id, s);
                }
            },
        }
        Ok(())
    }
}

/// A claim that succeeded is what a lookup of the same member and community
/// returns right after it.
pub proof fn lemma_claim_then_lookup(before: SheetDB, after: SheetDB, c: u64, m: u64, s: Seq<char>)
    requires
        stored_claim(before.rows(), after.rows(), c, m, s),
    ensures
        after.spec_sheet(c, m) == Some(s),
{
    assert(sheet_of(after.rows(), c, m) == Some(s));
}

/// Once member `m1` holds sheet `s` in community `c`, a claim of `s` there by
/// any other member `m2` is refused.
pub proof fn lemma_sheet_held_refuses_other(
    before: SheetDB,
    after: SheetDB,
    c: u64,
    m1: u64,
    m2: u64,
    s: Seq<char>,
)
    requires
        stored_claim(before.rows(), after.rows(), c, m1, s),
        m2 != m1,
    ensures
        sheet_taken(after.rows(), c, m2, s),
{
    assert(sheet_of(after.rows(), c, m1) == Some(s));
}

/// A member who holds `s1` and claims another sheet `s2` that no other member
/// held gets it: the claim succeeds and the lookup gives `s2`, never `s1`.
pub proof fn lemma_reclaim_replaces(
    before: SheetDB,
    middle: SheetDB,
    after: SheetDB,
    c: u64,
    m: u64,
    s1: Seq<char>,
    s2: Seq<char>,
)
    requires
        stored_claim(before.rows(), middle.rows(), c, m, s1),
        s2 != s1,
        !sheet_taken(before.rows(), c, m, s2),
        stored_claim(middle.rows(), after.rows(), c, m, s2),
    ensures
        !sheet_taken(middle.rows(), c, m, s2),
        after.spec_sheet(c, m) == Some(s2),
        after.spec_sheet(c, m) != Some(s1),
{
    assert forall|m2: u64| m2 != m implies #[trigger] sheet_of(middle.rows(), c, m2) != Some(s2) by {
        assert(sheet_of(middle.rows(), c, m2) == sheet_of(before.rows(), c, m2));
    }
    assert(sheet_of(after.rows(), c, m) == Some(s2));
}

/// Claims in different communities do not interfere: claiming `s` for `m` in
/// `c1` leaves unchanged whether the same claim in `c2` succeeds, and a claim in
/// `c2` leaves the one in `c1` in place.
pub proof fn lemma_communities_independent(
    before: SheetDB,
    middle: SheetDB,
    after: SheetDB,
    c1: u64,
    c2: u64,
    m: u64,
    s: Seq<char>,
)
    requires
        stored_claim(before.rows(), middle.rows(), c1, m, s),
        c1 != c2,
        stored_claim(middle.rows(), after.rows(), c2, m, s),
    ensures
        sheet_taken(middle.rows(), c2, m, s) == sheet_taken(before.rows(), c2, m, s),
        after.spec_sheet(c1, m) == Some(s),
        after.spec_sheet(c2, m) == Some(s),
{
    assert forall|m2: u64| #[trigger] sheet_of(middle.rows(), c2, m2) == sheet_of(before.rows(), c2, m2) by {}
    assert(sheet_of(middle.rows(), c1, m) == Some(s));
    assert(sheet_of(after.rows(), c1, m) == Some(s));
    assert(sheet_of(after.rows(), c2, m) == Some(s));
    if sheet_taken(middle.rows(), c2, m, s) {
        let m2 = choose|m2: u64| m2 != m && #[trigger] sheet_of(middle.rows(), c2, m2) == Some(s);
        assert(sheet_of(before.rows(), c2, m2) == Some(s));
    }
    if sheet_taken(before.rows(), c2, m, s) {
        let m2 = choose|m2: u64| m2 != m && #[trigger] sheet_of(before.rows(), c2, m2) == Some(s);
        assert(sheet_of(middle.rows(), c2, m2) == Some(s));
    }
}

} // verus!
