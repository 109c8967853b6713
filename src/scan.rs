//! Listing the derived accounts that interface descriptions declare, each
//! program and account name once.
use vstd::prelude::*;
use crate::json::{field_of, items_of, JsonValue};
use crate::specs::program_text;

verus! {

/// A derived account found in a description.
#[derive(Debug)]
pub struct PdaInfo {
    pub program_id: String,
    pub account_name: String,
    /// The position of the instruction in the description.
    pub instruction: usize,
    /// The position of the account in the instruction.
    pub account: usize,
}

/// Ghost model of a [`PdaInfo`].
pub struct PdaView {
    pub program_id: Seq<char>,
    pub account_name: Seq<char>,
    pub instruction: usize,
    pub account: usize,
}

impl View for PdaInfo {
    type V = PdaView;

    open spec fn view(&self) -> PdaView {
        PdaView {
            program_id: self.program_id@,
            account_name: self.account_name@,
            instruction: self.instruction,
            account: self.account,
        }
    }
}

/// The program a listing names: its address text, or a placeholder.
pub open spec fn listed_program(idl: JsonValue) -> Seq<char> {
    match program_text(idl) {
        Some(t) => t,
        None => "<unknown_program>"@,
    }
}

/// The key under which a derived account is listed once.
pub open spec fn pda_key(p: PdaView) -> Seq<char> {
    p.program_id + ":"@ + p.account_name
}

/// The derived accounts among the account descriptions `accts` of
/// instruction `i`: those with a `pda.seeds` array, in order.
pub open spec fn account_pdas(program: Seq<char>, i: usize, accts: Seq<JsonValue>) -> Seq<PdaView>
    decreases accts.len(),
{
    if accts.len() == 0 {
        Seq::empty()
    } else {
        let rest = account_pdas(program, i, accts.drop_last());
        let a = accts.last();
        if items_of(field_of(a.field("pda"@), "seeds"@)) is Some {
            rest.push(
                PdaView {
                    program_id: program,
                    account_name: match a.field("name"@) {
                        Some(JsonValue::Str(n)) => n@,
                        _ => "<unknown_account>"@,
                    },
                    instruction: i,
                    account: (accts.len() - 1) as usize,
                },
            )
        } else {
            rest
        }
    }
}

/// The derived accounts of the instruction descriptions `ixs`, in order.
pub open spec fn instruction_pdas(program: Seq<char>, ixs: Seq<JsonValue>) -> Seq<PdaView>
    decreases ixs.len(),
{
    if ixs.len() == 0 {
        Seq::empty()
    } else {
        instruction_pdas(program, ixs.drop_last()) + match items_of(ixs.last().field("accounts"@)) {
            Some(accts) => account_pdas(program, (ixs.len() - 1) as usize, accts),
            None => Seq::empty(),
        }
    }
}

/// The derived accounts of a description, in order.
pub open spec fn idl_pdas(idl: JsonValue) -> Seq<PdaView> {
    match items_of(idl.field("instructions"@)) {
        Some(ixs) => instruction_pdas(listed_program(idl), ixs),
        None => Seq::empty(),
    }
}

/// The listing after `found`: each derived account whose key has not been
/// seen yet is added, and its key with it.
pub open spec fn listed(seen: Seq<Seq<char>>, listing: Seq<PdaView>, found: Seq<PdaView>) -> (
    Seq<Seq<char>>,
    Seq<PdaView>,
)
    decreases found.len(),
{
    if found.len() == 0 {
        (seen, listing)
    } else {
        let (s, l) = listed(seen, listing, found.drop_last());
        let p = found.last();
        if s.contains(pda_key(p)) {
            (s, l)
        } else {
            (s.push(pda_key(p)), l.push(p))
        }
    }
}

proof fn lemma_listed_concat(
    seen: Seq<Seq<char>>,
    listing: Seq<PdaView>,
    a: Seq<PdaView>,
    b: Seq<PdaView>,
)
    ensures
        listed(seen, listing, a + b) == listed(
            listed(seen, listing, a).0,
            listed(seen, listing, a).1,
            b,
        ),
    decreases b.len(),
{
    if b.len() == 0 {
        assert(a + b =~= a);
    } else {
        assert((a + b).drop_last() =~= a + b.drop_last());
        assert((a + b).last() == b.last());
        lemma_listed_concat(seen, listing, a, b.drop_last());
    }
}

fn contains_key(seen: &Vec<String>, key: &String) -> (r: bool)
    ensures
        r == seen@.map_values(|s: String| s@).contains(key@),
{
    let ghost sv = seen@.map_values(|s: String| s@);
    let mut i: usize = 0;
    while i < seen.len()
        invariant
            0 <= i <= seen@.len(),
            sv == seen@.map_values(|s: String| s@),
            forall|j: int| 0 <= j < i ==> sv[j] != key@,
        decreases seen.len() - i,
    {
        if seen[i] == *key {
            assert(sv[i as int] == key@);
            return true;
        }
        i = i + 1;
    }
    false
}

/// Adds the derived accounts of one description to a listing: those of every
/// instruction, in order, whose program and account name have not been
/// listed yet. `seen` holds the keys listed so far.
pub fn collect_pdas(idl: &JsonValue, seen: &mut Vec<String>, found: &mut Vec<PdaInfo>)
    ensures
        (final(seen)@.map_values(|s: String| s@), final(found)@.map_values(|p: PdaInfo| p@))
            == listed(
            old(seen)@.map_values(|s: String| s@),
            old(found)@.map_values(|p: PdaInfo| p@),
            idl_pdas(*idl),
        ),
{
    let ghost s0 = seen@.map_values(|s: String| s@);
    let ghost f0 = found@.map_values(|p: PdaInfo| p@);
    let ixs = match idl.get("instructions") {
        Some(JsonValue::Array(ixs)) => ixs,
        _ => return,
    };
    let program = match idl.get("address") {
        Some(JsonValue::Str(t)) => t.clone(),
        _ => match crate::json::get_in(idl.get("metadata"), "address") {
            Some(JsonValue::Str(t)) => t.clone(),
            _ => String::from_str("<unknown_program>"),
        },
    };
    let ghost prog = listed_program(*idl);
    assert(program@ == prog);
    let mut i: usize = 0;
    while i < ixs.len()
        invariant
            0 <= i <= ixs@.len(),
            program@ == prog,
            (seen@.map_values(|s: String| s@), found@.map_values(|p: PdaInfo| p@)) == listed(
                s0,
                f0,
                instruction_pdas(prog, ixs@.take(i as int)),
            ),
        decreases ixs.len() - i,
    {
        assert(ixs@.take(i as int + 1).drop_last() =~= ixs@.take(i as int));
        assert(ixs@.take(i as int + 1).last() == ixs@[i as int]);
        let ghost before = instruction_pdas(prog, ixs@.take(i as int));
        if let Some(JsonValue::Array(accts)) = ixs[i].get("accounts") {
            let mut j: usize = 0;
            while j < accts.len()
                invariant
                    0 <= j <= accts@.len(),
                    program@ == prog,
                    (seen@.map_values(|s: String| s@), found@.map_values(|p: PdaInfo| p@))
                        == listed(s0, f0, before + account_pdas(prog, i, accts@.take(j as int))),
                decreases accts.len() - j,
            {
                let a = &accts[j];
                assert(accts@.take(j as int + 1).drop_last() =~= accts@.take(j as int));
                assert(accts@.take(j as int + 1).last() == accts@[j as int]);
                let ghost cands = account_pdas(prog, i, accts@.take(j as int));
                proof {
                    lemma_listed_concat(s0, f0, before, cands);
                    lemma_listed_concat(s0, f0, before, account_pdas(prog, i, accts@.take(j as int + 1)));
                }
                let has_seeds = match crate::json::get_in(a.get("pda"), "seeds") {
                    Some(JsonValue::Array(_)) => true,
                    _ => false,
                };
                if has_seeds {
                    let name = match a.get("name") {
                        Some(JsonValue::Str(n)) => n.clone(),
                        _ => String::from_str("<unknown_account>"),
                    };
                    let mut key = program.clone();
                    key.append(":");
                    key.append(name.as_str());
                    let info = PdaInfo {
                        program_id: program.clone(),
                        account_name: name,
                        instruction: i,
                        account: j,
                    };
                    assert(key@ == pda_key(info@));
                    assert(account_pdas(prog, i, accts@.take(j as int + 1)) == cands.push(info@));
                    assert(cands.push(info@).drop_last() =~= cands);
                    if !contains_key(seen, &key) {
                        let ghost sp = seen@;
                        let ghost fp = found@;
                        seen.push(key);
                        found.push(info);
                        assert(seen@.map_values(|s: String| s@) =~= sp.map_values(|s: String| s@).push(
                            pda_key(info@),
                        ));
                        assert(found@.map_values(|p: PdaInfo| p@) =~= fp.map_values(
                            |p: PdaInfo| p@,
                        ).push(info@));
                    }
                } else {
                    assert(account_pdas(prog, i, accts@.take(j as int + 1)) == cands);
                }
                j = j + 1;
            }
            assert(accts@.take(j as int) =~= accts@);
        } else {
            assert(before + Seq::<PdaView>::empty() =~= before);
        }
        i = i + 1;
    }
    assert(ixs@.take(i as int) =~= ixs@);
}

} // verus!
