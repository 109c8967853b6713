//! Account resolution: a concrete address for every account slot of a case.
//!
//! Accounts are resolved by name in two passes. The first binds each account
//! directly: the first signer to the payer, every later signer to an
//! independent signing identity, every other account to a fresh address. The
//! second derives the address of each account with seeds from its seed
//! material and the program address, looking referenced accounts up among the
//! bindings made so far. Names are looked up by their latest binding.
use vstd::prelude::*;
use crate::model::{AccountSpec, AccountView, Address, EdgeCase, Mutation, MutationView, SeedSpec, SeedView};

verus! {

/// The address derived from seed material and a program address, where there
/// is one.
pub uninterp spec fn program_address(seeds: Seq<Seq<u8>>, program: Seq<u8>) -> Option<Seq<u8>>;

/// Relies on `Pubkey::try_find_program_address` (anchor_lang's re-export of
/// solana_address): the program-derived address, a function of the seeds and
/// the program address alone; none where the seeds are out of bounds or no
/// bump seed gives an address off the curve.
#[verifier::external_body]
fn find_program_address(seeds: &Vec<Vec<u8>>, program: &Address) -> (r: Option<Address>)
    ensures
        match r {
            Some(a) => program_address(seeds@.map_values(|s: Vec<u8>| s@), program@) == Some(a@),
            None => program_address(seeds@.map_values(|s: Vec<u8>| s@), program@) is None,
        },
{
    let slices: Vec<&[u8]> = seeds.iter().map(|s| s.as_slice()).collect();
    let program_key = anchor_lang::prelude::Pubkey::new_from_array(program.bytes);
    anchor_lang::prelude::Pubkey::try_find_program_address(&slices, &program_key).map(
        |(pda, _)| Address { bytes: pda.to_bytes() },
    )
}

/// A resolved account slot of an invocation.
#[derive(Debug, Clone, Copy)]
pub struct AccountRef {
    pub address: Address,
    pub signer: bool,
    pub writable: bool,
}

/// Ghost model of an [`AccountRef`].
pub struct AccountRefView {
    pub address: Seq<u8>,
    pub signer: bool,
    pub writable: bool,
}

impl View for AccountRef {
    type V = AccountRefView;

    open spec fn view(&self) -> AccountRefView {
        AccountRefView { address: self.address@, signer: self.signer, writable: self.writable }
    }
}

/// The accounts of an invocation and the signing identities it needs besides
/// the payer's.
#[derive(Debug)]
pub struct ResolvedAccounts {
    /// One per account slot, in declaration order.
    pub metas: Vec<AccountRef>,
    /// The slots whose independent signing identity must sign, in order.
    pub extra_signers: Vec<usize>,
}

/// Name-to-address bindings; a later binding of a name hides earlier ones.
pub open spec fn bindings_view(b: Seq<(String, Address)>) -> Seq<(Seq<char>, Seq<u8>)> {
    b.map_values(|e: (String, Address)| (e.0@, e.1@))
}

/// The latest address bound to `name`.
pub open spec fn lookup(b: Seq<(Seq<char>, Seq<u8>)>, name: Seq<char>) -> Option<Seq<u8>>
    decreases b.len(),
{
    if b.len() == 0 {
        None
    } else if b.last().0 == name {
        Some(b.last().1)
    } else {
        lookup(b.drop_last(), name)
    }
}

/// Whether account `i` is the first signer of `accts`.
pub open spec fn is_first_signer(accts: Seq<AccountView>, i: int) -> bool {
    accts[i].signer && forall|j: int| 0 <= j < i ==> !(#[trigger] accts[j]).signer
}

/// The direct binding of account `i`: the payer for the first signer, the
/// account's own signing identity for a later signer, else a fresh address.
pub open spec fn direct_address(
    accts: Seq<AccountView>,
    i: int,
    payer: Seq<u8>,
    signers: Seq<Seq<u8>>,
    fresh: Seq<Seq<u8>>,
) -> Seq<u8> {
    if accts[i].signer {
        if is_first_signer(accts, i) {
            payer
        } else {
            signers[i]
        }
    } else {
        fresh[i]
    }
}

/// The bindings after the first pass.
pub open spec fn direct_bindings(
    accts: Seq<AccountView>,
    payer: Seq<u8>,
    signers: Seq<Seq<u8>>,
    fresh: Seq<Seq<u8>>,
) -> Seq<(Seq<char>, Seq<u8>)> {
    Seq::new(accts.len(), |i: int| (accts[i].name, direct_address(accts, i, payer, signers, fresh)))
}

/// The seed material of `seeds` under bindings `b`, in order; none where a
/// referenced account is not bound.
pub open spec fn seed_material(seeds: Seq<SeedView>, b: Seq<(Seq<char>, Seq<u8>)>) -> Option<
    Seq<Seq<u8>>,
>
    decreases seeds.len(),
{
    if seeds.len() == 0 {
        Some(Seq::empty())
    } else {
        match seed_material(seeds.drop_last(), b) {
            None => None,
            Some(m) => match seeds.last() {
                SeedView::Const(c) => Some(m.push(c)),
                SeedView::Account(n) => match lookup(b, n) {
                    Some(a) => Some(m.push(a)),
                    None => None,
                },
            },
        }
    }
}

/// The second pass on account `k`: a derived account with resolvable seed
/// material and a derivable address is bound to that address.
pub open spec fn derive_step(
    accts: Seq<AccountView>,
    k: int,
    b: Seq<(Seq<char>, Seq<u8>)>,
    program: Seq<u8>,
) -> Seq<(Seq<char>, Seq<u8>)> {
    if accts[k].seeds.len() == 0 {
        b
    } else {
        match seed_material(accts[k].seeds, b) {
            None => b,
            Some(m) => match program_address(m, program) {
                Some(a) => b.push((accts[k].name, a)),
                None => b,
            },
        }
    }
}

/// The bindings after the second pass has visited the first `k` accounts.
pub open spec fn derived_bindings(
    accts: Seq<AccountView>,
    k: int,
    b: Seq<(Seq<char>, Seq<u8>)>,
    program: Seq<u8>,
) -> Seq<(Seq<char>, Seq<u8>)>
    decreases k,
{
    if k <= 0 {
        b
    } else {
        derive_step(accts, k - 1, derived_bindings(accts, k - 1, b, program), program)
    }
}

/// The bindings after the mutation: a wrong-derived-address case rebinds its
/// account, where bound, to the replacement address.
pub open spec fn mutated_bindings(
    b: Seq<(Seq<char>, Seq<u8>)>,
    m: MutationView,
    replacement: Seq<u8>,
) -> Seq<(Seq<char>, Seq<u8>)> {
    match m {
        MutationView::WrongPda(n) => if lookup(b, n) is Some {
            b.push((n, replacement))
        } else {
            b
        },
        _ => b,
    }
}

/// The final bindings of a resolution.
pub open spec fn final_bindings(
    accts: Seq<AccountView>,
    program: Seq<u8>,
    m: MutationView,
    payer: Seq<u8>,
    signers: Seq<Seq<u8>>,
    fresh: Seq<Seq<u8>>,
    replacement: Seq<u8>,
) -> Seq<(Seq<char>, Seq<u8>)> {
    mutated_bindings(
        derived_bindings(
            accts,
            accts.len() as int,
            direct_bindings(accts, payer, signers, fresh),
            program,
        ),
        m,
        replacement,
    )
}

/// The account references of a resolution: each slot's bound address, with
/// its signer and writable flags.
pub open spec fn resolved_metas(accts: Seq<AccountView>, b: Seq<(Seq<char>, Seq<u8>)>) -> Seq<
    AccountRefView,
> {
    Seq::new(
        accts.len(),
        |i: int|
            AccountRefView {
                address: lookup(b, accts[i].name)->Some_0,
                signer: accts[i].signer,
                writable: accts[i].writable,
            },
    )
}

/// Whether slot `i` carries an independent signing identity that signs: a
/// signer other than the first, and the last slot of its name.
pub open spec fn signs_separately(accts: Seq<AccountView>, i: int) -> bool {
    accts[i].signer && !is_first_signer(accts, i) && forall|j: int|
        i < j < accts.len() ==> (#[trigger] accts[j]).name != accts[i].name
}

/// The slots among the first `k` that sign separately, in order.
pub open spec fn extra_signers(accts: Seq<AccountView>, k: int) -> Seq<usize>
    decreases k,
{
    if k <= 0 {
        Seq::empty()
    } else if signs_separately(accts, k - 1) {
        extra_signers(accts, k - 1).push((k - 1) as usize)
    } else {
        extra_signers(accts, k - 1)
    }
}

fn lookup_binding(b: &Vec<(String, Address)>, name: &String) -> (r: Option<Address>)
    ensures
        match r {
            Some(a) => lookup(bindings_view(b@), name@) == Some(a@),
            None => lookup(bindings_view(b@), name@) is None,
        },
{
    let mut j: usize = b.len();
    assert(b@.take(j as int) =~= b@);
    while j > 0
        invariant
            0 <= j <= b@.len(),
            lookup(bindings_view(b@), name@) == lookup(bindings_view(b@.take(j as int)), name@),
        decreases j,
    {
        assert(bindings_view(b@.take(j as int)).drop_last() =~= bindings_view(
            b@.take(j as int - 1),
        ));
        if b[j - 1].0 == *name {
            return Some(b[j - 1].1);
        }
        j = j - 1;
    }
    None
}

fn seed_material_of(seeds: &Vec<SeedSpec>, b: &Vec<(String, Address)>) -> (r: Option<
    Vec<Vec<u8>>,
>)
    ensures
        match r {
            Some(m) => seed_material(seeds@.map_values(|s: SeedSpec| s@), bindings_view(b@))
                == Some(m@.map_values(|v: Vec<u8>| v@)),
            None => seed_material(seeds@.map_values(|s: SeedSpec| s@), bindings_view(b@)) is None,
        },
{
    let ghost sv = seeds@.map_values(|s: SeedSpec| s@);
    let ghost bv = bindings_view(b@);
    let mut out: Vec<Vec<u8>> = Vec::new();
    let mut i: usize = 0;
    while i < seeds.len()
        invariant
            0 <= i <= seeds@.len(),
            sv == seeds@.map_values(|s: SeedSpec| s@),
            bv == bindings_view(b@),
            seed_material(sv.take(i as int), bv) == Some(out@.map_values(|v: Vec<u8>| v@)),
        decreases seeds.len() - i,
    {
        assert(sv.take(i as int + 1).drop_last() =~= sv.take(i as int));
        assert(sv.take(i as int + 1).last() == seeds@[i as int]@);
        let ghost before = out@;
        match &seeds[i] {
            SeedSpec::Const(c) => {
                let v = c.clone();
                assert(v@ =~= c@);
                out.push(v);
            },
            SeedSpec::Account(n) => match lookup_binding(b, n) {
                Some(a) => {
                    let v = vstd::slice::slice_to_vec(vstd::array::array_as_slice(&a.bytes));
                    out.push(v);
                },
                None => {
                    proof { lemma_seed_material_none_stays(sv, bv, i as int + 1); }
                    return None;
                },
            },
        }
        assert(out@.map_values(|v: Vec<u8>| v@) =~= before.map_values(|v: Vec<u8>| v@).push(
            out@.last()@,
        ));
        i = i + 1;
    }
    assert(sv.take(i as int) =~= sv);
    Some(out)
}

proof fn lemma_seed_material_none_stays(
    seeds: Seq<SeedView>,
    b: Seq<(Seq<char>, Seq<u8>)>,
    k: int,
)
    requires
        0 <= k <= seeds.len(),
        seed_material(seeds.take(k), b) is None,
    ensures
        seed_material(seeds, b) is None,
    decreases seeds.len() - k,
{
    if k < seeds.len() {
        assert(seeds.take(k + 1).drop_last() =~= seeds.take(k));
        lemma_seed_material_none_stays(seeds, b, k + 1);
    } else {
        assert(seeds.take(k) =~= seeds);
    }
}

proof fn lemma_lookup_bound(b: Seq<(Seq<char>, Seq<u8>)>, name: Seq<char>, j: int)
    requires
        0 <= j < b.len(),
        b[j].0 == name,
    ensures
        lookup(b, name) is Some,
    decreases b.len(),
{
    if b.last().0 != name {
        assert(b.drop_last()[j] == b[j]);
        lemma_lookup_bound(b.drop_last(), name, j);
    }
}

proof fn lemma_lookup_push(
    b: Seq<(Seq<char>, Seq<u8>)>,
    e: (Seq<char>, Seq<u8>),
    name: Seq<char>,
)
    ensures
        lookup(b.push(e), name) == if e.0 == name {
            Some(e.1)
        } else {
            lookup(b, name)
        },
{
    assert(b.push(e).drop_last() =~= b);
}

proof fn lemma_derived_keeps_bound(
    accts: Seq<AccountView>,
    k: int,
    b: Seq<(Seq<char>, Seq<u8>)>,
    program: Seq<u8>,
    name: Seq<char>,
)
    requires
        lookup(b, name) is Some,
    ensures
        lookup(derived_bindings(accts, k, b, program), name) is Some,
    decreases k,
{
    if k > 0 {
        lemma_derived_keeps_bound(accts, k - 1, b, program, name);
        let prev = derived_bindings(accts, k - 1, b, program);
        if accts[k - 1].seeds.len() > 0 {
            if let Some(m) = seed_material(accts[k - 1].seeds, prev) {
                if let Some(a) = program_address(m, program) {
                    lemma_lookup_push(prev, (accts[k - 1].name, a), name);
                }
            }
        }
    }
}

proof fn lemma_derived_binding_kept(
    accts: Seq<AccountView>,
    i: int,
    k: int,
    b: Seq<(Seq<char>, Seq<u8>)>,
    program: Seq<u8>,
    a: Seq<u8>,
)
    requires
        0 <= i < k <= accts.len(),
        forall|j: int| 0 <= j < accts.len() && j != i ==> (#[trigger] accts[j]).name != accts[i].name,
        lookup(derived_bindings(accts, i + 1, b, program), accts[i].name) == Some(a),
    ensures
        lookup(derived_bindings(accts, k, b, program), accts[i].name) == Some(a),
    decreases k,
{
    if k > i + 1 {
        lemma_derived_binding_kept(accts, i, k - 1, b, program, a);
        let prev = derived_bindings(accts, k - 1, b, program);
        if accts[k - 1].seeds.len() > 0 {
            if let Some(m) = seed_material(accts[k - 1].seeds, prev) {
                if let Some(x) = program_address(m, program) {
                    lemma_lookup_push(prev, (accts[k - 1].name, x), accts[i].name);
                }
            }
        }
    }
}

/// The address that resolution gives a derived account depends on its seed
/// material and the program address alone: in any two resolutions of the
/// same accounts in which the account's seeds resolve to the same material,
/// and in which the case does not target it, it gets the same address,
/// namely the one derived from that material and the program address
/// (accounts being keyed by distinct names).
pub proof fn lemma_derived_address_stable(
    accts: Seq<AccountView>,
    program: Seq<u8>,
    i: int,
    material: Seq<Seq<u8>>,
    m1: MutationView,
    payer1: Seq<u8>,
    signers1: Seq<Seq<u8>>,
    fresh1: Seq<Seq<u8>>,
    replacement1: Seq<u8>,
    m2: MutationView,
    payer2: Seq<u8>,
    signers2: Seq<Seq<u8>>,
    fresh2: Seq<Seq<u8>>,
    replacement2: Seq<u8>,
)
    requires
        0 <= i < accts.len(),
        accts[i].seeds.len() > 0,
        forall|j: int| 0 <= j < accts.len() && j != i ==> (#[trigger] accts[j]).name != accts[i].name,
        m1 != MutationView::WrongPda(accts[i].name),
        m2 != MutationView::WrongPda(accts[i].name),
        seed_material(
            accts[i].seeds,
            derived_bindings(accts, i, direct_bindings(accts, payer1, signers1, fresh1), program),
        ) == Some(material),
        seed_material(
            accts[i].seeds,
            derived_bindings(accts, i, direct_bindings(accts, payer2, signers2, fresh2), program),
        ) == Some(material),
        program_address(material, program) is Some,
    ensures
        resolved_metas(
            accts,
            final_bindings(accts, program, m1, payer1, signers1, fresh1, replacement1),
        )[i].address == program_address(material, program)->Some_0,
        resolved_metas(
            accts,
            final_bindings(accts, program, m1, payer1, signers1, fresh1, replacement1),
        )[i].address == resolved_metas(
            accts,
            final_bindings(accts, program, m2, payer2, signers2, fresh2, replacement2),
        )[i].address,
{
    let a = program_address(material, program)->Some_0;
    let n = accts.len() as int;
    let d1 = direct_bindings(accts, payer1, signers1, fresh1);
    let d2 = direct_bindings(accts, payer2, signers2, fresh2);
    lemma_lookup_push(derived_bindings(accts, i, d1, program), (accts[i].name, a), accts[i].name);
    lemma_lookup_push(derived_bindings(accts, i, d2, program), (accts[i].name, a), accts[i].name);
    lemma_derived_binding_kept(accts, i, n, d1, program, a);
    lemma_derived_binding_kept(accts, i, n, d2, program, a);
    if let MutationView::WrongPda(t) = m1 {
        lemma_lookup_push(derived_bindings(accts, n, d1, program), (t, replacement1), accts[i].name);
    }
    if let MutationView::WrongPda(t) = m2 {
        lemma_lookup_push(derived_bindings(accts, n, d2, program), (t, replacement2), accts[i].name);
    }
}

/// A wrong-derived-address case takes effect: every slot of the targeted
/// account is bound to the replacement address.
pub proof fn lemma_wrong_pda_takes_effect(
    accts: Seq<AccountView>,
    program: Seq<u8>,
    payer: Seq<u8>,
    signers: Seq<Seq<u8>>,
    fresh: Seq<Seq<u8>>,
    replacement: Seq<u8>,
    i: int,
)
    requires
        0 <= i < accts.len(),
    ensures
        resolved_metas(
            accts,
            final_bindings(
                accts,
                program,
                MutationView::WrongPda(accts[i].name),
                payer,
                signers,
                fresh,
                replacement,
            ),
        )[i].address == replacement,
{
    let direct = direct_bindings(accts, payer, signers, fresh);
    let derived = derived_bindings(accts, accts.len() as int, direct, program);
    assert(direct[i].0 == accts[i].name);
    lemma_lookup_bound(direct, accts[i].name, i);
    lemma_derived_keeps_bound(accts, accts.len() as int, direct, program, accts[i].name);
    lemma_lookup_push(derived, (accts[i].name, replacement), accts[i].name);
}

fn name_recurs_after(accts: &Vec<AccountSpec>, i: usize) -> (r: bool)
    requires
        i < accts@.len(),
    ensures
        r == exists|j: int| i < j < accts@.len() && (#[trigger] accts@[j]).name@ == accts@[i as int].name@,
{
    let n = accts.len();
    let mut j: usize = i + 1;
    while j < n
        invariant
            i < j <= accts@.len(),
            n == accts@.len(),
            forall|l: int| i < l < j ==> (#[trigger] accts@[l]).name@ != accts@[i as int].name@,
        decreases n - j,
    {
        if accts[j].name == accts[i].name {
            return true;
        }
        j = j + 1;
    }
    false
}

/// Resolves the accounts of `case`. The first signer is bound to `payer`;
/// every later signer at slot i to `signer_pool[i]`, the address of an
/// independent signing identity; every other account at slot i to `fresh[i]`.
/// Each account with seeds whose seed material resolves, and whose address
/// derives, is then bound to the address derived from that material and the
/// case's program address. A wrong-derived-address case finally rebinds its
/// account to `replacement`. Unresolvable accounts keep their direct binding.
pub fn build_accounts(
    case: &EdgeCase,
    payer: Address,
    signer_pool: &Vec<Address>,
    fresh: &Vec<Address>,
    replacement: Address,
) -> (r: ResolvedAccounts)
    requires
        signer_pool@.len() == case.instruction.accounts@.len(),
        fresh@.len() == case.instruction.accounts@.len(),
    ensures
        r.metas@.map_values(|m: AccountRef| m@) == resolved_metas(
            case@.instruction.accounts,
            final_bindings(
                case@.instruction.accounts,
                case.program_id@,
                case.mutation@,
                payer@,
                signer_pool@.map_values(|a: Address| a@),
                fresh@.map_values(|a: Address| a@),
                replacement@,
            ),
        ),
        r.extra_signers@ == extra_signers(
            case@.instruction.accounts,
            case.instruction.accounts@.len() as int,
        ),
{
    let accts = &case.instruction.accounts;
    let ghost av = case@.instruction.accounts;
    let ghost sv = signer_pool@.map_values(|a: Address| a@);
    let ghost fv = fresh@.map_values(|a: Address| a@);
    let ghost direct = direct_bindings(av, payer@, sv, fv);
    let ghost program = case.program_id@;
    let n = accts.len();

    let mut b: Vec<(String, Address)> = Vec::new();
    let mut seen_signer = false;
    let mut i: usize = 0;
    while i < n
        invariant
            0 <= i <= n,
            n == accts@.len(),
            av == accts@.map_values(|a: AccountSpec| a@),
            sv == signer_pool@.map_values(|a: Address| a@),
            fv == fresh@.map_values(|a: Address| a@),
            signer_pool@.len() == n,
            fresh@.len() == n,
            direct == direct_bindings(av, payer@, sv, fv),
            bindings_view(b@) == direct.take(i as int),
            seen_signer == exists|j: int| 0 <= j < i && (#[trigger] av[j]).signer,
        decreases n - i,
    {
        let acc = &accts[i];
        let addr = if acc.signer {
            if !seen_signer {
                seen_signer = true;
                payer
            } else {
                signer_pool[i]
            }
        } else {
            fresh[i]
        };
        assert(addr@ == direct_address(av, i as int, payer@, sv, fv));
        let ghost old_b = b@;
        b.push((acc.name.clone(), addr));
        assert(bindings_view(b@) =~= bindings_view(old_b).push((acc.name@, addr@)));
        assert(bindings_view(b@) =~= direct.take(i as int + 1));
        i = i + 1;
    }
    assert(direct.take(n as int) =~= direct);

    let mut k: usize = 0;
    while k < n
        invariant
            0 <= k <= n,
            n == accts@.len(),
            av == accts@.map_values(|a: AccountSpec| a@),
            program == case.program_id@,
            bindings_view(b@) == derived_bindings(av, k as int, direct, program),
        decreases n - k,
    {
        let acc = &accts[k];
        if acc.pda_seeds.len() > 0 {
            match seed_material_of(&acc.pda_seeds, &b) {
                Some(m) => match find_program_address(&m, &case.program_id) {
                    Some(a) => {
                        b.push((acc.name.clone(), a));
                        assert(bindings_view(b@) =~= derived_bindings(
                            av,
                            k as int + 1,
                            direct,
                            program,
                        ));
                    },
                    None => {},
                },
                None => {},
            }
        }
        k = k + 1;
    }

    let ghost derived = bindings_view(b@);
    if let Mutation::WrongPda { account } = &case.mutation {
        if lookup_binding(&b, account).is_some() {
            b.push((account.clone(), replacement));
            assert(bindings_view(b@) =~= derived.push((account@, replacement@)));
        }
    }
    let ghost fin = bindings_view(b@);
    assert(fin == final_bindings(av, program, case.mutation@, payer@, sv, fv, replacement@));

    let mut metas: Vec<AccountRef> = Vec::new();
    let mut extra: Vec<usize> = Vec::new();
    let mut seen: bool = false;
    let mut i: usize = 0;
    while i < n
        invariant
            0 <= i <= n,
            n == accts@.len(),
            fresh@.len() == n,
            av == accts@.map_values(|a: AccountSpec| a@),
            direct == direct_bindings(av, payer@, sv, fv),
            derived == derived_bindings(av, n as int, direct, program),
            fin == bindings_view(b@),
            fin == mutated_bindings(derived, case.mutation@, replacement@),
            metas@.map_values(|m: AccountRef| m@) == resolved_metas(av, fin).take(i as int),
            extra@ == extra_signers(av, i as int),
            seen == exists|j: int| 0 <= j < i && (#[trigger] av[j]).signer,
        decreases n - i,
    {
        let acc = &accts[i];
        proof {
            assert(direct[i as int].0 == av[i as int].name);
            lemma_lookup_bound(direct, av[i as int].name, i as int);
            lemma_derived_keeps_bound(av, n as int, direct, program, av[i as int].name);
            if let MutationView::WrongPda(m) = case.mutation@ {
                lemma_lookup_push(derived, (m, replacement@), av[i as int].name);
            }
        }
        let address = match lookup_binding(&b, &acc.name) {
            Some(a) => a,
            None => fresh[i],
        };
        let ghost old_m = metas@;
        metas.push(AccountRef { address, signer: acc.signer, writable: acc.writable });
        assert(metas@.map_values(|m: AccountRef| m@) =~= old_m.map_values(|m: AccountRef| m@).push(
            metas@.last()@,
        ));
        assert(metas@.map_values(|m: AccountRef| m@) =~= resolved_metas(av, fin).take(
            i as int + 1,
        ));
        let first = acc.signer && !seen;
        assert(first == is_first_signer(av, i as int));
        let recurs = name_recurs_after(accts, i);
        proof {
            if recurs {
                let j = choose|j: int|
                    i < j < accts@.len() && (#[trigger] accts@[j]).name@ == accts@[i as int].name@;
                assert(av[j].name == av[i as int].name);
            } else {
                assert forall|j: int| i < j < av.len() implies (#[trigger] av[j]).name != av[
                    i as int
                ].name by {
                    assert(accts@[j].name@ != accts@[i as int].name@);
                }
            }
        }
        assert(signs_separately(av, i as int) == (acc.signer && !first && !recurs));
        if acc.signer && !first && !recurs {
            extra.push(i);
        }
        assert(extra@ =~= extra_signers(av, i as int + 1));
        if acc.signer {
            seen = true;
        }
        i = i + 1;
    }
    assert(resolved_metas(av, fin).take(n as int) =~= resolved_metas(av, fin));
    ResolvedAccounts { metas, extra_signers: extra }
}

} // verus!
