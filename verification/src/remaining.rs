//! The ordered list of accounts that follow an instruction's own accounts.
//!
//! The program reads them in a fixed order: oracles, then spot markets, then perp markets. Within
//! a kind they are ordered by address, and no account of a kind is listed twice.
use crate::pubkey::{
    lemma_precedes_asymmetric, lemma_precedes_irreflexive, lemma_precedes_total,
    lemma_precedes_transitive, lemma_pubkey_ext, precedes, Place, Pubkey,
};
use vstd::prelude::*;

verus! {

/// An account in an instruction: its address and what the instruction does with it.
#[derive(Clone, Copy, Debug, PartialEq, Eq)]
pub struct AccountMeta {
    pub pubkey: Pubkey,
    pub is_signer: bool,
    pub is_writable: bool,
}

/// An account that follows an instruction's own accounts.
#[derive(Clone, Copy, Debug, PartialEq, Eq)]
pub enum RemainingAccount {
    Oracle { pubkey: Pubkey },
    Spot { pubkey: Pubkey, writable: bool },
    Perp { pubkey: Pubkey, writable: bool },
}

impl RemainingAccount {
    /// The place of the account's kind in the order that the program expects.
    pub open spec fn rank(self) -> int {
        match self {
            RemainingAccount::Oracle { .. } => 0,
            RemainingAccount::Spot { .. } => 1,
            RemainingAccount::Perp { .. } => 2,
        }
    }

    /// The account's address.
    pub open spec fn address(self) -> Pubkey {
        match self {
            RemainingAccount::Oracle { pubkey } => pubkey,
            RemainingAccount::Spot { pubkey, .. } => pubkey,
            RemainingAccount::Perp { pubkey, .. } => pubkey,
        }
    }

    /// Whether the instruction may write to the account. Oracles are only read.
    pub open spec fn writable(self) -> bool {
        match self {
            RemainingAccount::Oracle { .. } => false,
            RemainingAccount::Spot { writable, .. } => writable,
            RemainingAccount::Perp { writable, .. } => writable,
        }
    }

    /// Both are the same account of the same kind.
    pub open spec fn same_key(self, other: RemainingAccount) -> bool {
        self.rank() == other.rank() && self.address() == other.address()
    }

    /// `self` is listed before `other`: its kind comes first, or, of two accounts of one kind, its
    /// address does.
    pub open spec fn before(self, other: RemainingAccount) -> bool {
        ||| self.rank() < other.rank()
        ||| self.rank() == other.rank() && precedes(self.address()@, other.address()@)
    }

    /// The account as an instruction lists it: never a signer.
    pub open spec fn as_meta(self) -> AccountMeta {
        AccountMeta { pubkey: self.address(), is_signer: false, is_writable: self.writable() }
    }

    /// The account as an instruction lists it.
    pub fn meta(&self) -> (r: AccountMeta)
        ensures
            r == self.as_meta(),
    {
        match self {
            RemainingAccount::Oracle { pubkey } => AccountMeta {
                pubkey: *pubkey,
                is_signer: false,
                is_writable: false,
            },
            RemainingAccount::Spot { pubkey, writable } => AccountMeta {
                pubkey: *pubkey,
                is_signer: false,
                is_writable: *writable,
            },
            RemainingAccount::Perp { pubkey, writable } => AccountMeta {
                pubkey: *pubkey,
                is_signer: false,
                is_writable: *writable,
            },
        }
    }

    /// Where `self` is listed relative to `other`.
    fn place(&self, other: &RemainingAccount) -> (r: Place)
        ensures
            r is Before <==> self.before(*other),
            r is Same <==> self.same_key(*other),
            r is After <==> other.before(*self),
    {
        let (a, pubkey_a): (u8, &Pubkey) = match self {
            RemainingAccount::Oracle { pubkey } => (0, pubkey),
            RemainingAccount::Spot { pubkey, .. } => (1, pubkey),
            RemainingAccount::Perp { pubkey, .. } => (2, pubkey),
        };
        let (b, pubkey_b): (u8, &Pubkey) = match other {
            RemainingAccount::Oracle { pubkey } => (0, pubkey),
            RemainingAccount::Spot { pubkey, .. } => (1, pubkey),
            RemainingAccount::Perp { pubkey, .. } => (2, pubkey),
        };
        if a < b {
            Place::Before
        } else if b < a {
            Place::After
        } else {
            pubkey_a.place(pubkey_b)
        }
    }
}

/// The list is in the order that the program expects, with nothing twice.
pub open spec fn ordered(list: Seq<RemainingAccount>) -> bool {
    forall|i: int, j: int| 0 <= i < j < list.len() ==> (#[trigger] list[i]).before(#[trigger] list[j])
}

/// Of the accounts in `candidates` with the kind and address of `x`, `x` stands first.
#[verifier::opaque]
pub open spec fn stands_first(candidates: Seq<RemainingAccount>, x: RemainingAccount) -> bool {
    exists|i: int|
        {
            &&& 0 <= i < candidates.len()
            &&& #[trigger] candidates[i] == x
            &&& forall|j: int| 0 <= j < i ==> !(#[trigger] candidates[j]).same_key(x)
        }
}

/// Some account in the list has the kind and address of `x`.
#[verifier::opaque]
pub open spec fn lists(list: Seq<RemainingAccount>, x: RemainingAccount) -> bool {
    exists|k: int| 0 <= k < list.len() && (#[trigger] list[k]).same_key(x)
}

/// `list` is what is sent for `candidates`: in order, each kind and address among the candidates
/// once, as the first candidate with that kind and address has it.
pub open spec fn is_account_list(
    list: Seq<RemainingAccount>,
    candidates: Seq<RemainingAccount>,
) -> bool {
    &&& ordered(list)
    &&& forall|k: int| 0 <= k < list.len() ==> stands_first(candidates, #[trigger] list[k])
    &&& forall|i: int| 0 <= i < candidates.len() ==> lists(list, #[trigger] candidates[i])
}

/// The list that is sent for `candidates`. There is exactly one: see `account_list_exists` and
/// `account_list_unique`.
pub open spec fn account_list(candidates: Seq<RemainingAccount>) -> Seq<RemainingAccount> {
    choose|list: Seq<RemainingAccount>| is_account_list(list, candidates)
}

/// The order of accounts is transitive.
proof fn lemma_before_transitive(a: RemainingAccount, b: RemainingAccount, c: RemainingAccount)
    requires
        a.before(b),
        b.before(c),
    ensures
        a.before(c),
{
    if a.rank() == b.rank() && b.rank() == c.rank() {
        lemma_precedes_transitive(a.address()@, b.address()@, c.address()@);
    }
}

/// What comes before something is neither the same account nor after it.
proof fn lemma_before_excludes(a: RemainingAccount, b: RemainingAccount)
    requires
        a.before(b),
    ensures
        !b.before(a),
        !a.same_key(b),
        !b.same_key(a),
{
    if a.rank() == b.rank() {
        lemma_precedes_asymmetric(a.address()@, b.address()@);
        lemma_precedes_irreflexive(a.address()@);
    }
}

/// Putting a new account in its place gives the list for one candidate more.
proof fn lemma_insert(
    list: Seq<RemainingAccount>,
    candidates: Seq<RemainingAccount>,
    x: RemainingAccount,
    pos: int,
)
    requires
        is_account_list(list, candidates),
        0 <= pos <= list.len(),
        forall|k: int| 0 <= k < pos ==> (#[trigger] list[k]).before(x),
        forall|k: int| pos <= k < list.len() ==> x.before(#[trigger] list[k]),
    ensures
        is_account_list(list.insert(pos, x), candidates.push(x)),
{
    reveal(stands_first);
    reveal(lists);
    let new = list.insert(pos, x);
    let cands = candidates.push(x);
    assert forall|k: int| 0 <= k < list.len() implies !(#[trigger] list[k]).same_key(x) by {
        if k < pos {
            lemma_before_excludes(list[k], x);
        } else {
            lemma_before_excludes(x, list[k]);
        }
    }
    assert forall|i: int, j: int| 0 <= i < j < new.len() implies (#[trigger] new[i]).before(
        #[trigger] new[j],
    ) by {
        let oi = if i < pos { i } else { i - 1 };
        let oj = if j < pos { j } else { j - 1 };
        if i == pos {
            assert(new[j] == list[oj]);
        } else if j == pos {
            assert(new[i] == list[oi]);
        } else {
            assert(new[i] == list[oi] && new[j] == list[oj]);
        }
    }
    assert forall|k: int| 0 <= k < new.len() implies stands_first(cands, #[trigger] new[k]) by {
        if k == pos {
            assert forall|j: int| 0 <= j < candidates.len() implies !(
            #[trigger] cands[j]).same_key(x) by {
                assert(cands[j] == candidates[j]);
                assert(lists(list, candidates[j]));
                let m = choose|m: int|
                    0 <= m < list.len() && (#[trigger] list[m]).same_key(candidates[j]);
                assert(!list[m].same_key(x));
            }
            assert(cands[candidates.len() as int] == x);
        } else {
            let ok = if k < pos { k } else { k - 1 };
            assert(new[k] == list[ok]);
            assert(stands_first(candidates, list[ok]));
            let i = choose|i: int|
                {
                    &&& 0 <= i < candidates.len()
                    &&& #[trigger] candidates[i] == list[ok]
                    &&& forall|j: int|
                        0 <= j < i ==> !(#[trigger] candidates[j]).same_key(list[ok])
                };
            assert(cands[i] == list[ok]);
            assert forall|j: int| 0 <= j < i implies !(#[trigger] cands[j]).same_key(list[ok]) by {
                assert(cands[j] == candidates[j]);
            }
        }
    }
    assert forall|i: int| 0 <= i < cands.len() implies lists(new, #[trigger] cands[i]) by {
        if i < candidates.len() {
            assert(cands[i] == candidates[i]);
            assert(lists(list, candidates[i]));
            let m = choose|m: int|
                0 <= m < list.len() && (#[trigger] list[m]).same_key(candidates[i]);
            let nm = if m < pos { m } else { m + 1 };
            assert(new[nm] == list[m]);
        } else {
            assert(new[pos].same_key(x));
        }
    }
}

/// A candidate that is listed already changes nothing.
proof fn lemma_keep(
    list: Seq<RemainingAccount>,
    candidates: Seq<RemainingAccount>,
    x: RemainingAccount,
)
    requires
        is_account_list(list, candidates),
        lists(list, x),
    ensures
        is_account_list(list, candidates.push(x)),
{
    reveal(stands_first);
    let cands = candidates.push(x);
    assert forall|k: int| 0 <= k < list.len() implies stands_first(cands, #[trigger] list[k]) by {
        assert(stands_first(candidates, list[k]));
        let i = choose|i: int|
            {
                &&& 0 <= i < candidates.len()
                &&& #[trigger] candidates[i] == list[k]
                &&& forall|j: int| 0 <= j < i ==> !(#[trigger] candidates[j]).same_key(list[k])
            };
        assert(cands[i] == list[k]);
        assert forall|j: int| 0 <= j < i implies !(#[trigger] cands[j]).same_key(list[k]) by {
            assert(cands[j] == candidates[j]);
        }
    }
    assert forall|i: int| 0 <= i < cands.len() implies lists(list, #[trigger] cands[i]) by {
        if i < candidates.len() {
            assert(cands[i] == candidates[i]);
        }
    }
}

/// Two first candidates with one kind and address are the same candidate.
proof fn lemma_first_is_one(
    candidates: Seq<RemainingAccount>,
    x: RemainingAccount,
    y: RemainingAccount,
)
    requires
        stands_first(candidates, x),
        stands_first(candidates, y),
        x.same_key(y),
    ensures
        x == y,
{
    reveal(stands_first);
    let i = choose|i: int|
        {
            &&& 0 <= i < candidates.len()
            &&& #[trigger] candidates[i] == x
            &&& forall|j: int| 0 <= j < i ==> !(#[trigger] candidates[j]).same_key(x)
        };
    let j = choose|j: int|
        {
            &&& 0 <= j < candidates.len()
            &&& #[trigger] candidates[j] == y
            &&& forall|k: int| 0 <= k < j ==> !(#[trigger] candidates[k]).same_key(y)
        };
    if i < j {
        assert(!candidates[i].same_key(y));
    }
    if j < i {
        assert(!candidates[j].same_key(x));
    }
}

/// The candidate at which `x` stands first.
pub proof fn lemma_first_position(candidates: Seq<RemainingAccount>, x: RemainingAccount) -> (i: int)
    requires
        stands_first(candidates, x),
    ensures
        0 <= i < candidates.len(),
        candidates[i] == x,
        forall|j: int| 0 <= j < i ==> !(#[trigger] candidates[j]).same_key(x),
{
    reveal(stands_first);
    choose|i: int|
        {
            &&& 0 <= i < candidates.len()
            &&& #[trigger] candidates[i] == x
            &&& forall|j: int| 0 <= j < i ==> !(#[trigger] candidates[j]).same_key(x)
        }
}

/// A first candidate whose kind and address are in a list of first candidates is itself in it.
proof fn lemma_first_is_listed(
    list: Seq<RemainingAccount>,
    candidates: Seq<RemainingAccount>,
    x: RemainingAccount,
)
    requires
        stands_first(candidates, x),
        lists(list, x),
        forall|k: int| 0 <= k < list.len() ==> stands_first(candidates, #[trigger] list[k]),
    ensures
        list.contains(x),
{
    reveal(lists);
    let m = choose|m: int| 0 <= m < list.len() && (#[trigger] list[m]).same_key(x);
    lemma_first_is_one(candidates, list[m], x);
}

/// What one list for `candidates` holds, every other holds too.
proof fn lemma_same_elements(
    a: Seq<RemainingAccount>,
    b: Seq<RemainingAccount>,
    candidates: Seq<RemainingAccount>,
)
    requires
        is_account_list(a, candidates),
        is_account_list(b, candidates),
    ensures
        forall|k: int| 0 <= k < a.len() ==> b.contains(#[trigger] a[k]),
{
    assert forall|k: int| 0 <= k < a.len() implies b.contains(#[trigger] a[k]) by {
        let i = lemma_first_position(candidates, a[k]);
        lemma_first_is_listed(b, candidates, candidates[i]);
    }
}

/// Two ordered lists that hold the same accounts are equal.
proof fn lemma_ordered_equal(a: Seq<RemainingAccount>, b: Seq<RemainingAccount>)
    requires
        ordered(a),
        ordered(b),
        forall|k: int| 0 <= k < a.len() ==> b.contains(#[trigger] a[k]),
        forall|k: int| 0 <= k < b.len() ==> a.contains(#[trigger] b[k]),
    ensures
        a == b,
    decreases a.len(),
{
    if a.len() == 0 {
        if b.len() > 0 {
            assert(a.contains(b[0]));
        }
        assert(a =~= b);
    } else {
        assert(b.contains(a[0]));
        let x = a[a.len() - 1];
        let y = b[b.len() - 1];
        let m = choose|m: int| 0 <= m < b.len() && b[m] == x;
        let n = choose|n: int| 0 <= n < a.len() && a[n] == y;
        assert(b.contains(x) && a.contains(y));
        if m < b.len() - 1 {
            assert(b[m].before(b[b.len() - 1]));
            lemma_before_excludes(x, y);
            if n < a.len() - 1 {
                assert(a[n].before(a[a.len() - 1]));
            }
        }
        assert(x == y);
        let a0 = a.drop_last();
        let b0 = b.drop_last();
        assert forall|k: int| 0 <= k < a0.len() implies b0.contains(#[trigger] a0[k]) by {
            assert(a0[k] == a[k]);
            assert(b.contains(a[k]));
            let p = choose|p: int| 0 <= p < b.len() && b[p] == a[k];
            assert(a[k].before(a[a.len() - 1]));
            lemma_before_excludes(a[k], x);
            assert(p < b.len() - 1);
            assert(b0[p] == a0[k]);
        }
        assert forall|k: int| 0 <= k < b0.len() implies a0.contains(#[trigger] b0[k]) by {
            assert(b0[k] == b[k]);
            assert(a.contains(b[k]));
            let p = choose|p: int| 0 <= p < a.len() && a[p] == b[k];
            assert(b[k].before(b[b.len() - 1]));
            lemma_before_excludes(b[k], y);
            assert(p < a.len() - 1);
            assert(a0[p] == b0[k]);
        }
        assert(ordered(a0)) by {
            assert forall|i: int, j: int| 0 <= i < j < a0.len() implies (#[trigger] a0[i]).before(
                #[trigger] a0[j],
            ) by {
                assert(a[i].before(a[j]));
            }
        }
        assert(ordered(b0)) by {
            assert forall|i: int, j: int| 0 <= i < j < b0.len() implies (#[trigger] b0[i]).before(
                #[trigger] b0[j],
            ) by {
                assert(b[i].before(b[j]));
            }
        }
        lemma_ordered_equal(a0, b0);
        assert(a =~= a0.push(x));
        assert(b =~= b0.push(y));
    }
}

/// An account that is not listed has a place in an ordered list.
proof fn lemma_position(list: Seq<RemainingAccount>, x: RemainingAccount) -> (pos: int)
    requires
        ordered(list),
        !lists(list, x),
    ensures
        0 <= pos <= list.len(),
        forall|k: int| 0 <= k < pos ==> (#[trigger] list[k]).before(x),
        forall|k: int| pos <= k < list.len() ==> x.before(#[trigger] list[k]),
    decreases list.len(),
{
    reveal(lists);
    broadcast use lemma_pubkey_ext;

    if list.len() == 0 {
        0
    } else {
        let n = list.len() - 1;
        let last = list[n];
        assert(!last.same_key(x));
        if last.rank() == x.rank() {
            lemma_precedes_total(last.address()@, x.address()@);
        }
        if last.before(x) {
            assert forall|k: int| 0 <= k < list.len() implies (#[trigger] list[k]).before(x) by {
                if k < n {
                    assert(list[k].before(list[n]));
                    lemma_before_transitive(list[k], last, x);
                }
            }
            list.len() as int
        } else {
            assert(x.before(last));
            let rest = list.drop_last();
            assert forall|i: int, j: int| 0 <= i < j < rest.len() implies (
            #[trigger] rest[i]).before(#[trigger] rest[j]) by {
                assert(list[i].before(list[j]));
            }
            assert(!lists(rest, x)) by {
                if lists(rest, x) {
                    let k = choose|k: int| 0 <= k < rest.len() && (#[trigger] rest[k]).same_key(x);
                    assert(list[k].same_key(x));
                }
            }
            let pos = lemma_position(rest, x);
            assert forall|k: int| 0 <= k < pos implies (#[trigger] list[k]).before(x) by {
                assert(rest[k] == list[k]);
            }
            assert forall|k: int| pos <= k < list.len() implies x.before(#[trigger] list[k]) by {
                if k < n {
                    assert(rest[k] == list[k]);
                }
            }
            pos
        }
    }
}

/// For every sequence of candidates there is a list, and `account_list` is one.
pub proof fn account_list_exists(candidates: Seq<RemainingAccount>)
    ensures
        is_account_list(account_list(candidates), candidates),
    decreases candidates.len(),
{
    if candidates.len() == 0 {
        assert(is_account_list(Seq::empty(), candidates));
    } else {
        let rest = candidates.drop_last();
        let x = candidates.last();
        account_list_exists(rest);
        let list = account_list(rest);
        assert(rest.push(x) =~= candidates);
        if lists(list, x) {
            lemma_keep(list, rest, x);
            assert(is_account_list(list, candidates));
        } else {
            let pos = lemma_position(list, x);
            lemma_insert(list, rest, x, pos);
            assert(is_account_list(list.insert(pos, x), candidates));
        }
    }
}

/// There is only one list for a sequence of candidates, so `is_account_list` pins it down.
pub proof fn account_list_unique(list: Seq<RemainingAccount>, candidates: Seq<RemainingAccount>)
    requires
        is_account_list(list, candidates),
    ensures
        list == account_list(candidates),
{
    let other = account_list(candidates);
    account_list_exists(candidates);
    lemma_same_elements(list, other, candidates);
    lemma_same_elements(other, list, candidates);
    lemma_ordered_equal(list, other);
}

/// Finds an account in an ordered list, or the place where it belongs.
fn locate(list: &Vec<RemainingAccount>, x: &RemainingAccount) -> (r: Result<usize, usize>)
    requires
        ordered(list@),
    ensures
        match r {
            Ok(i) => i < list@.len() && list@[i as int].same_key(*x),
            Err(pos) => {
                &&& pos <= list@.len()
                &&& forall|k: int| 0 <= k < pos ==> (#[trigger] list@[k]).before(*x)
                &&& forall|k: int| pos <= k < list@.len() ==> x.before(#[trigger] list@[k])
            },
        },
{
    let mut low: usize = 0;
    let mut high: usize = list.len();
    while low < high
        invariant
            0 <= low <= high <= list@.len(),
            ordered(list@),
            forall|k: int| 0 <= k < low ==> (#[trigger] list@[k]).before(*x),
            forall|k: int| high <= k < list@.len() ==> x.before(#[trigger] list@[k]),
        decreases high - low,
    {
        let mid: usize = low + (high - low) / 2;
        match list[mid].place(x) {
            Place::Same => {
                return Ok(mid);
            },
            Place::Before => {
                assert forall|k: int| 0 <= k < mid + 1 implies (#[trigger] list@[k]).before(*x) by {
                    if k < mid {
                        lemma_before_transitive(list@[k], list@[mid as int], *x);
                    }
                }
                low = mid + 1;
            },
            Place::After => {
                assert forall|k: int| mid <= k < list@.len() implies x.before(#[trigger] list@[k]) by {
                    if mid < k {
                        lemma_before_transitive(*x, list@[mid as int], list@[k]);
                    }
                }
                high = mid;
            },
        }
    }
    Err(low)
}

/// Adds a candidate to the list unless its kind and address are listed already.
pub(crate) fn add_account(
    list: &mut Vec<RemainingAccount>,
    x: RemainingAccount,
    Ghost(candidates): Ghost<Seq<RemainingAccount>>,
)
    requires
        is_account_list(old(list)@, candidates),
    ensures
        is_account_list(final(list)@, candidates.push(x)),
{
    match locate(list, &x) {
        Ok(i) => {
            proof {
                reveal(lists);
                lemma_keep(list@, candidates, x);
            }
        },
        Err(pos) => {
            proof {
                lemma_insert(list@, candidates, x, pos as int);
            }
            list.insert(pos, x);
        },
    }
}

} // verus!
