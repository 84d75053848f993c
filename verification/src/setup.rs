//! Funding freshly created accounts: which mints a balance table asks for.
use vstd::prelude::*;

verus! {

/// A mint of `amount` units from the faucet at position `faucet` to the
/// account at position `account`.
#[derive(Clone, Copy, Debug, PartialEq, Eq, Structural)]
pub struct Mint {
    pub account: usize,
    pub faucet: usize,
    pub amount: u64,
}

/// The mints to account `account` of the first `n` faucets of its balance
/// row: one per nonzero balance, in faucet order.
pub open spec fn spec_row_mints(row: Seq<u64>, account: usize, n: nat) -> Seq<Mint>
    decreases n,
{
    if n == 0 {
        Seq::empty()
    } else {
        let prev = spec_row_mints(row, account, (n - 1) as nat);
        let f = n - 1;
        if row[f] != 0 {
            prev.push(Mint { account, faucet: f as usize, amount: row[f] })
        } else {
            prev
        }
    }
}

/// The mints of the first `accounts` rows of `balances` over `faucets`
/// faucets, account by account.
pub open spec fn spec_mint_plan(balances: Seq<Vec<u64>>, accounts: nat, faucets: nat) -> Seq<Mint>
    decreases accounts,
{
    if accounts == 0 {
        Seq::empty()
    } else {
        let a = accounts - 1;
        spec_mint_plan(balances, a as nat, faucets) + spec_row_mints(
            balances[a as int]@,
            a as usize,
            faucets,
        )
    }
}

/// The mints of a balance row are exactly its nonzero balances among the
/// first `n` faucets, each paid to `account` from its faucet.
pub proof fn lemma_row_mints_members(row: Seq<u64>, account: usize, n: nat)
    requires
        n <= row.len(),
        n <= usize::MAX,
    ensures
        forall|m: Mint|
            #[trigger] spec_row_mints(row, account, n).contains(m) <==> (m.account == account && m.faucet
                < n && row[m.faucet as int] == m.amount && m.amount != 0),
    decreases n,
{
    if n > 0 {
        let k = (n - 1) as nat;
        lemma_row_mints_members(row, account, k);
        let prev = spec_row_mints(row, account, k);
        let cur = spec_row_mints(row, account, n);
        assert forall|m: Mint| #[trigger] cur.contains(m) <==> (m.account == account && m.faucet < n
            && row[m.faucet as int] == m.amount && m.amount != 0) by {
            if row[k as int] != 0 {
                let x = Mint { account, faucet: k as usize, amount: row[k as int] };
                assert(cur == prev.push(x));
                if cur.contains(m) {
                    let j = choose|j: int| 0 <= j < cur.len() && cur[j] == m;
                    if j < prev.len() {
                        assert(prev[j] == m);
                        assert(prev.contains(m));
                    }
                }
                if m.account == account && m.faucet < n && row[m.faucet as int] == m.amount && m.amount != 0 {
                    if m.faucet < k {
                        assert(prev.contains(m));
                        let j = choose|j: int| 0 <= j < prev.len() && prev[j] == m;
                        assert(cur[j] == m);
                    } else {
                        assert(m == x);
                        assert(cur[prev.len() as int] == m);
                    }
                }
            }
        }
    }
}

/// The mint plan holds exactly one kind of mint: for each of the first
/// `accounts` accounts and each of the first `faucets` faucets whose
/// balance for it is nonzero, that balance, minted by that faucet to that
/// account.
pub proof fn lemma_mint_plan_members(balances: Seq<Vec<u64>>, accounts: nat, faucets: nat)
    requires
        accounts <= balances.len(),
        accounts <= usize::MAX,
        faucets <= usize::MAX,
        forall|a: int| 0 <= a < accounts ==> faucets <= (#[trigger] balances[a])@.len(),
    ensures
        forall|m: Mint|
            #[trigger] spec_mint_plan(balances, accounts, faucets).contains(m) <==> (m.account < accounts
                && m.faucet < faucets && balances[m.account as int]@[m.faucet as int] == m.amount
                && m.amount != 0),
    decreases accounts,
{
    if accounts > 0 {
        let a = (accounts - 1) as nat;
        lemma_mint_plan_members(balances, a, faucets);
        lemma_row_mints_members(balances[a as int]@, a as usize, faucets);
        let prev = spec_mint_plan(balances, a, faucets);
        let row = spec_row_mints(balances[a as int]@, a as usize, faucets);
        let cur = spec_mint_plan(balances, accounts, faucets);
        assert(cur == prev + row);
        assert forall|m: Mint| #[trigger] cur.contains(m) <==> (m.account < accounts && m.faucet
            < faucets && balances[m.account as int]@[m.faucet as int] == m.amount && m.amount != 0) by {
            if cur.contains(m) {
                let j = choose|j: int| 0 <= j < cur.len() && cur[j] == m;
                if j < prev.len() {
                    assert(prev[j] == m);
                    assert(prev.contains(m));
                } else {
                    assert(row[j - prev.len()] == m);
                    assert(row.contains(m));
                }
            }
            if m.account < accounts && m.faucet < faucets && balances[m.account as int]@[m.faucet as int]
                == m.amount && m.amount != 0 {
                if m.account < a {
                    assert(prev.contains(m));
                    let j = choose|j: int| 0 <= j < prev.len() && prev[j] == m;
                    assert(cur[j] == m);
                } else {
                    assert(row.contains(m));
                    let j = choose|j: int| 0 <= j < row.len() && row[j] == m;
                    assert(cur[prev.len() + j] == m);
                }
            }
        }
    }
}

/// The mints that fund `num_accounts` accounts from `num_faucets` faucets,
/// where `balances[a][f]` is what faucet `f` mints for account `a`: one mint
/// per nonzero balance, account by account and faucet by faucet.
pub fn mint_plan(balances: &Vec<Vec<u64>>, num_accounts: usize, num_faucets: usize) -> (r: Vec<
    Mint,
>)
    requires
        num_accounts <= balances@.len(),
        forall|a: int| 0 <= a < num_accounts ==> num_faucets <= (#[trigger] balances@[a])@.len(),
    ensures
        r@ == spec_mint_plan(balances@, num_accounts as nat, num_faucets as nat),
        forall|m: Mint|
            #[trigger] r@.contains(m) <==> (m.account < num_accounts && m.faucet < num_faucets
                && balances@[m.account as int]@[m.faucet as int] == m.amount && m.amount != 0),
{
    proof {
        lemma_mint_plan_members(balances@, num_accounts as nat, num_faucets as nat);
    }
    let mut r: Vec<Mint> = Vec::new();
    let mut a: usize = 0;
    while a < num_accounts
        invariant
            a <= num_accounts,
            num_accounts <= balances@.len(),
            forall|t: int| 0 <= t < num_accounts ==> num_faucets <= (#[trigger] balances@[t])@.len(),
            r@ == spec_mint_plan(balances@, a as nat, num_faucets as nat),
        decreases num_accounts - a,
    {
        let row = &balances[a];
        assert(num_faucets <= row@.len());
        let ghost before = r@;
        let mut f: usize = 0;
        while f < num_faucets
            invariant
                f <= num_faucets,
                num_faucets <= row@.len(),
                r@ == before + spec_row_mints(row@, a, f as nat),
            decreases num_faucets - f,
        {
            let amount = row[f];
            if amount != 0 {
                r.push(Mint { account: a, faucet: f, amount });
            }
            f = f + 1;
            assert(r@ =~= before + spec_row_mints(row@, a, f as nat));
        }
        a = a + 1;
        assert(r@ =~= spec_mint_plan(balances@, a as nat, num_faucets as nat));
    }
    r
}

} // verus!
