//! Reading an interface description into the instruction model.
use vstd::prelude::*;
use crate::json::{
    entry_index, field_of, get_in, items_of, lemma_entry_index_bound, opt_value, text_of,
    bool_of, JsonValue,
};
use crate::model::{
    AccountSpec, AccountView, Address, ArgSpec, ArgType, ArgView, InstructionSpec,
    InstructionView, PrimType, ProgramSpec, ProgramView, SeedSpec, SeedView, TypeError,
};

verus! {

/// The primitive type of a type name.
pub open spec fn prim_of(s: Seq<char>) -> Option<PrimType> {
    if s == "bool"@ {
        Some(PrimType::Bool)
    } else if s == "u8"@ {
        Some(PrimType::U8)
    } else if s == "i8"@ {
        Some(PrimType::I8)
    } else if s == "u16"@ {
        Some(PrimType::U16)
    } else if s == "i16"@ {
        Some(PrimType::I16)
    } else if s == "u32"@ {
        Some(PrimType::U32)
    } else if s == "i32"@ {
        Some(PrimType::I32)
    } else if s == "u64"@ {
        Some(PrimType::U64)
    } else if s == "i64"@ {
        Some(PrimType::I64)
    } else if s == "u128"@ {
        Some(PrimType::U128)
    } else if s == "i128"@ {
        Some(PrimType::I128)
    } else if s == "pubkey"@ {
        Some(PrimType::Pubkey)
    } else {
        None
    }
}

/// The argument type of a type descriptor: a primitive name, or an object
/// whose `array` entry is a pair of element descriptor and length.
pub open spec fn arg_type_of(v: JsonValue) -> ArgType
    decreases v,
{
    match v {
        JsonValue::Str(s) => match prim_of(s@) {
            Some(p) => ArgType::Prim(p),
            None => ArgType::Unsupported(TypeError::UnknownPrimitive),
        },
        JsonValue::Object(entries) => match entry_index(entries@, "array"@) {
            None => ArgType::Unsupported(TypeError::Complex),
            Some(i) => {
                proof {
                    lemma_entry_index_bound(entries@, "array"@);
                }
                match entries@[i].1 {
                    JsonValue::Array(items) => if items@.len() == 2 {
                        match arg_type_of(items@[0]) {
                            ArgType::Unsupported(e) => ArgType::Unsupported(e),
                            inner => match items@[1] {
                                JsonValue::Number(n) => ArgType::Array(Box::new(inner), n),
                                _ => ArgType::Unsupported(TypeError::InvalidArrayLen),
                            },
                        }
                    } else {
                        ArgType::Unsupported(TypeError::InvalidArray)
                    },
                    _ => ArgType::Unsupported(TypeError::InvalidArray),
                }
            },
        },
        _ => ArgType::Unsupported(TypeError::Complex),
    }
}

fn prim_named(s: &String) -> (r: Option<PrimType>)
    ensures
        r == prim_of(s@),
{
    if *s == String::from_str("bool") {
        Some(PrimType::Bool)
    } else if *s == String::from_str("u8") {
        Some(PrimType::U8)
    } else if *s == String::from_str("i8") {
        Some(PrimType::I8)
    } else if *s == String::from_str("u16") {
        Some(PrimType::U16)
    } else if *s == String::from_str("i16") {
        Some(PrimType::I16)
    } else if *s == String::from_str("u32") {
        Some(PrimType::U32)
    } else if *s == String::from_str("i32") {
        Some(PrimType::I32)
    } else if *s == String::from_str("u64") {
        Some(PrimType::U64)
    } else if *s == String::from_str("i64") {
        Some(PrimType::I64)
    } else if *s == String::from_str("u128") {
        Some(PrimType::U128)
    } else if *s == String::from_str("i128") {
        Some(PrimType::I128)
    } else if *s == String::from_str("pubkey") {
        Some(PrimType::Pubkey)
    } else {
        None
    }
}

/// Decodes a type descriptor into an argument type, once, at load time.
pub fn parse_arg_type(v: &JsonValue) -> (r: ArgType)
    ensures
        r == arg_type_of(*v),
    decreases v,
{
    match v {
        JsonValue::Str(s) => match prim_named(s) {
            Some(p) => ArgType::Prim(p),
            None => ArgType::Unsupported(TypeError::UnknownPrimitive),
        },
        JsonValue::Object(_) => match v.get("array") {
            None => ArgType::Unsupported(TypeError::Complex),
            Some(JsonValue::Array(items)) => {
                if items.len() == 2 {
                    proof {
                        if let JsonValue::Object(entries) = v {
                            lemma_entry_index_bound(entries@, "array"@);
                        }
                    }
                    match parse_arg_type(&items[0]) {
                        ArgType::Unsupported(e) => ArgType::Unsupported(e),
                        inner => match &items[1] {
                            JsonValue::Number(n) => ArgType::Array(Box::new(inner), *n),
                            _ => ArgType::Unsupported(TypeError::InvalidArrayLen),
                        },
                    }
                } else {
                    ArgType::Unsupported(TypeError::InvalidArray)
                }
            },
            Some(_) => ArgType::Unsupported(TypeError::InvalidArray),
        },
        _ => ArgType::Unsupported(TypeError::Complex),
    }
}

/// The elements of `items` that are non-negative integers, each taken as its
/// lowest byte.
pub open spec fn bytes_of(items: Seq<JsonValue>) -> Seq<u8>
    decreases items.len(),
{
    if items.len() == 0 {
        Seq::empty()
    } else {
        match items.last() {
            JsonValue::Number(n) => bytes_of(items.drop_last()).push(n as u8),
            _ => bytes_of(items.drop_last()),
        }
    }
}

/// A seed description: `const` with a byte array `value`, or `account` with a
/// `path`; anything else is ignored.
pub open spec fn seed_of(s: JsonValue) -> Option<SeedView> {
    let kind = text_of(s.field("kind"@));
    if kind == Some("const"@) {
        match items_of(s.field("value"@)) {
            Some(b) => Some(SeedView::Const(bytes_of(b))),
            None => None,
        }
    } else if kind == Some("account"@) {
        match text_of(s.field("path"@)) {
            Some(p) => Some(SeedView::Account(p)),
            None => None,
        }
    } else {
        None
    }
}

/// The seeds of the seed descriptions `items`, in order.
pub open spec fn seeds_of(items: Seq<JsonValue>) -> Seq<SeedView>
    decreases items.len(),
{
    if items.len() == 0 {
        Seq::empty()
    } else {
        match seed_of(items.last()) {
            Some(s) => seeds_of(items.drop_last()).push(s),
            None => seeds_of(items.drop_last()),
        }
    }
}

/// An account description: its `name` (`unknown` where absent), its `signer`
/// and `writable` flags (false where absent), and the seeds under `pda`.
pub open spec fn account_of(a: JsonValue) -> AccountView {
    AccountView {
        name: match text_of(a.field("name"@)) {
            Some(n) => n,
            None => "unknown"@,
        },
        signer: match bool_of(a.field("signer"@)) {
            Some(b) => b,
            None => false,
        },
        writable: match bool_of(a.field("writable"@)) {
            Some(b) => b,
            None => false,
        },
        seeds: match items_of(field_of(a.field("pda"@), "seeds"@)) {
            Some(items) => seeds_of(items),
            None => Seq::empty(),
        },
    }
}

/// An argument description: its `name` (`arg` where absent) and the type of
/// its `type` descriptor.
pub open spec fn arg_of(a: JsonValue) -> ArgView {
    ArgView {
        name: match text_of(a.field("name"@)) {
            Some(n) => n,
            None => "arg"@,
        },
        ty: match a.field("type"@) {
            Some(t) => arg_type_of(t),
            None => arg_type_of(JsonValue::Null),
        },
    }
}

/// An instruction description: none without a textual `name`, or without a
/// `discriminator` array holding exactly eight integers.
pub open spec fn instruction_of(ix: JsonValue) -> Option<InstructionView> {
    match (text_of(ix.field("name"@)), items_of(ix.field("discriminator"@))) {
        (Some(name), Some(d)) => if bytes_of(d).len() == 8 {
            Some(
                InstructionView {
                    name,
                    discriminator: bytes_of(d),
                    accounts: match items_of(ix.field("accounts"@)) {
                        Some(a) => a.map_values(|x: JsonValue| account_of(x)),
                        None => Seq::empty(),
                    },
                    args: match items_of(ix.field("args"@)) {
                        Some(a) => a.map_values(|x: JsonValue| arg_of(x)),
                        None => Seq::empty(),
                    },
                },
            )
        } else {
            None
        },
        _ => None,
    }
}

fn text_in(v: Option<&JsonValue>) -> (r: Option<&String>)
    ensures
        match r {
            Some(s) => text_of(opt_value(v)) == Some(s@),
            None => text_of(opt_value(v)) is None,
        },
{
    match v {
        Some(JsonValue::Str(s)) => Some(s),
        _ => None,
    }
}

fn bool_in(v: Option<&JsonValue>) -> (r: Option<bool>)
    ensures
        r == bool_of(opt_value(v)),
{
    match v {
        Some(JsonValue::Bool(b)) => Some(*b),
        _ => None,
    }
}

fn items_in(v: Option<&JsonValue>) -> (r: Option<&Vec<JsonValue>>)
    ensures
        match r {
            Some(items) => items_of(opt_value(v)) == Some(items@),
            None => items_of(opt_value(v)) is None,
        },
{
    match v {
        Some(JsonValue::Array(items)) => Some(items),
        _ => None,
    }
}

fn parse_bytes(items: &Vec<JsonValue>) -> (r: Vec<u8>)
    ensures
        r@ == bytes_of(items@),
{
    let mut out: Vec<u8> = Vec::new();
    let mut i: usize = 0;
    while i < items.len()
        invariant
            0 <= i <= items@.len(),
            out@ == bytes_of(items@.take(i as int)),
        decreases items.len() - i,
    {
        assert(items@.take(i as int + 1).drop_last() =~= items@.take(i as int));
        assert(items@.take(i as int + 1).last() == items@[i as int]);
        if let JsonValue::Number(n) = &items[i] {
            out.push(*n as u8);
        }
        i = i + 1;
    }
    assert(items@.take(i as int) =~= items@);
    out
}

fn parse_seed(s: &JsonValue) -> (r: Option<SeedSpec>)
    ensures
        match r {
            Some(x) => seed_of(*s) == Some(x@),
            None => seed_of(*s) is None,
        },
{
    let kind = text_in(s.get("kind"));
    let is_const = match kind {
        Some(k) => *k == String::from_str("const"),
        None => false,
    };
    let is_account = match kind {
        Some(k) => *k == String::from_str("account"),
        None => false,
    };
    if is_const {
        match items_in(s.get("value")) {
            Some(b) => Some(SeedSpec::Const(parse_bytes(b))),
            None => None,
        }
    } else if is_account {
        match text_in(s.get("path")) {
            Some(p) => Some(SeedSpec::Account(p.clone())),
            None => None,
        }
    } else {
        None
    }
}

fn parse_seeds(items: &Vec<JsonValue>) -> (r: Vec<SeedSpec>)
    ensures
        r@.map_values(|x: SeedSpec| x@) == seeds_of(items@),
{
    let mut out: Vec<SeedSpec> = Vec::new();
    let mut i: usize = 0;
    while i < items.len()
        invariant
            0 <= i <= items@.len(),
            out@.map_values(|x: SeedSpec| x@) == seeds_of(items@.take(i as int)),
        decreases items.len() - i,
    {
        assert(items@.take(i as int + 1).drop_last() =~= items@.take(i as int));
        assert(items@.take(i as int + 1).last() == items@[i as int]);
        let ghost before = out@;
        if let Some(seed) = parse_seed(&items[i]) {
            out.push(seed);
            assert(out@.map_values(|x: SeedSpec| x@) =~= before.map_values(|x: SeedSpec| x@).push(
                out@.last()@,
            ));
        }
        i = i + 1;
    }
    assert(items@.take(i as int) =~= items@);
    out
}

fn parse_account(a: &JsonValue) -> (r: AccountSpec)
    ensures
        r@ == account_of(*a),
{
    let name = match text_in(a.get("name")) {
        Some(n) => n.clone(),
        None => String::from_str("unknown"),
    };
    let signer = match bool_in(a.get("signer")) {
        Some(b) => b,
        None => false,
    };
    let writable = match bool_in(a.get("writable")) {
        Some(b) => b,
        None => false,
    };
    let pda_seeds = match items_in(get_in(a.get("pda"), "seeds")) {
        Some(items) => parse_seeds(items),
        None => Vec::new(),
    };
    let r = AccountSpec { name, signer, writable, pda_seeds };
    assert(r@.seeds =~= account_of(*a).seeds);
    r
}

fn parse_arg(a: &JsonValue) -> (r: ArgSpec)
    ensures
        r@ == arg_of(*a),
{
    let name = match text_in(a.get("name")) {
        Some(n) => n.clone(),
        None => String::from_str("arg"),
    };
    let ty = match a.get("type") {
        Some(t) => parse_arg_type(t),
        None => parse_arg_type(&JsonValue::Null),
    };
    ArgSpec { name, ty }
}

/// Parses one instruction description; none where its name is not text or
/// its discriminator is not an array of exactly eight integers.
pub fn parse_instruction(ix: &JsonValue) -> (r: Option<InstructionSpec>)
    ensures
        match r {
            Some(s) => instruction_of(*ix) == Some(s@),
            None => instruction_of(*ix) is None,
        },
{
    let name = match text_in(ix.get("name")) {
        Some(n) => n.clone(),
        None => return None,
    };
    let discriminator = match items_in(ix.get("discriminator")) {
        Some(d) => parse_bytes(d),
        None => return None,
    };
    if discriminator.len() != 8 {
        return None;
    }
    let mut accounts: Vec<AccountSpec> = Vec::new();
    if let Some(items) = items_in(ix.get("accounts")) {
        let mut i: usize = 0;
        while i < items.len()
            invariant
                0 <= i <= items@.len(),
                accounts@.map_values(|a: AccountSpec| a@) == items@.take(i as int).map_values(
                    |x: JsonValue| account_of(x),
                ),
            decreases items.len() - i,
        {
            let ghost before = accounts@;
            accounts.push(parse_account(&items[i]));
            assert(accounts@.map_values(|a: AccountSpec| a@) =~= before.map_values(
                |a: AccountSpec| a@,
            ).push(account_of(items@[i as int])));
            assert(accounts@.map_values(|a: AccountSpec| a@) =~= items@.take(
                i as int + 1,
            ).map_values(|x: JsonValue| account_of(x)));
            i = i + 1;
        }
        assert(items@.take(i as int) =~= items@);
    }
    let mut args: Vec<ArgSpec> = Vec::new();
    if let Some(items) = items_in(ix.get("args")) {
        let mut i: usize = 0;
        while i < items.len()
            invariant
                0 <= i <= items@.len(),
                args@.map_values(|a: ArgSpec| a@) == items@.take(i as int).map_values(
                    |x: JsonValue| arg_of(x),
                ),
            decreases items.len() - i,
        {
            let ghost before = args@;
            args.push(parse_arg(&items[i]));
            assert(args@.map_values(|a: ArgSpec| a@) =~= before.map_values(|a: ArgSpec| a@).push(
                arg_of(items@[i as int]),
            ));
            assert(args@.map_values(|a: ArgSpec| a@) =~= items@.take(i as int + 1).map_values(
                |x: JsonValue| arg_of(x),
            ));
            i = i + 1;
        }
        assert(items@.take(i as int) =~= items@);
    }
    let r = InstructionSpec { name, discriminator, accounts, args };
    assert(r@.accounts =~= instruction_of(*ix)->Some_0.accounts);
    assert(r@.args =~= instruction_of(*ix)->Some_0.args);
    Some(r)
}

/// The address that a base58 text denotes, where it denotes one.
pub uninterp spec fn address_from_text(s: Seq<char>) -> Option<Seq<u8>>;

/// Relies on solana_address's `FromStr` for `Address`: the 32 bytes that a
/// base58 text decodes to, or an error, depending on the text alone.
#[verifier::external_body]
fn parse_address(s: &str) -> (r: Option<Address>)
    ensures
        match r {
            Some(a) => address_from_text(s@) == Some(a@),
            None => address_from_text(s@) is None,
        },
{
    s.parse::<solana_address::Address>().ok().map(|a| Address { bytes: a.to_bytes() })
}

/// `s` with every hyphen replaced by an underscore.
pub open spec fn underscored(s: Seq<char>) -> Seq<char> {
    s.map_values(|c: char| if c == '-' { '_' } else { c })
}

/// Relies on `str::replace`, which replaces every match of a pattern: here
/// each `-` by `_`.
#[verifier::external_body]
fn replace_hyphens(s: &str) -> (r: String)
    ensures
        r@ == underscored(s@),
{
    s.replace('-', "_")
}

/// The artifact file name that a description name points to.
pub open spec fn candidate(s: Seq<char>) -> Seq<char> {
    underscored(s) + ".so"@
}

/// Whether a file name has the extension `so` (a name of just `.so` has none).
pub open spec fn is_so_file(name: Seq<char>) -> bool {
    name.len() > 3 && name[name.len() - 3] == '.' && name[name.len() - 2] == 's' && name[name.len()
        - 1] == 'o'
}

/// The artifact files among directory entries, in order.
pub open spec fn so_files(entries: Seq<Seq<char>>) -> Seq<Seq<char>>
    decreases entries.len(),
{
    if entries.len() == 0 {
        Seq::empty()
    } else if is_so_file(entries.last()) {
        so_files(entries.drop_last()).push(entries.last())
    } else {
        so_files(entries.drop_last())
    }
}

/// The artifact of a description, among the entries of the artifact
/// directory: the candidate named after the description file, else the one
/// named after the package, else the only artifact there is.
pub open spec fn resolved_so(entries: Seq<Seq<char>>, stem: Seq<char>, meta_name: Seq<char>) -> Option<
    Seq<char>,
> {
    if entries.contains(candidate(stem)) {
        Some(candidate(stem))
    } else if entries.contains(candidate(meta_name)) {
        Some(candidate(meta_name))
    } else if so_files(entries).len() == 1 {
        Some(so_files(entries)[0])
    } else {
        None
    }
}

/// No artifact can be told apart for a description.
#[derive(Debug)]
pub struct ArtifactError {
    pub deploy_dir: String,
    pub stem: String,
    pub meta_name: String,
}

impl ArtifactError {
    /// The diagnostic of the error.
    pub fn message(&self) -> (r: String)
        ensures
            r@ == "Could not resolve matching .so in "@ + self.deploy_dir@ + " for idl stem="@
                + self.stem@ + " meta_name="@ + self.meta_name@,
    {
        let mut s = String::from_str("Could not resolve matching .so in ");
        s.append(self.deploy_dir.as_str());
        s.append(" for idl stem=");
        s.append(self.stem.as_str());
        s.append(" meta_name=");
        s.append(self.meta_name.as_str());
        s
    }
}

fn has_so_extension(name: &String) -> (r: bool)
    ensures
        r == is_so_file(name@),
{
    let s = name.as_str();
    let n = s.unicode_len();
    if n <= 3 {
        return false;
    }
    s.get_char(n - 3) == '.' && s.get_char(n - 2) == 's' && s.get_char(n - 1) == 'o'
}

fn contains_name(entries: &Vec<String>, name: &String) -> (r: bool)
    ensures
        r == entries@.map_values(|e: String| e@).contains(name@),
{
    let ghost ev = entries@.map_values(|e: String| e@);
    let mut i: usize = 0;
    while i < entries.len()
        invariant
            0 <= i <= entries@.len(),
            ev == entries@.map_values(|e: String| e@),
            forall|j: int| 0 <= j < i ==> ev[j] != name@,
        decreases entries.len() - i,
    {
        if entries[i] == *name {
            assert(ev[i as int] == name@);
            return true;
        }
        i = i + 1;
    }
    false
}

/// Picks the compiled artifact of a description among the names of the
/// entries of the artifact directory `deploy_dir`: `<stem>.so`, else
/// `<meta_name>.so` (hyphens read as underscores), else the only `.so` file;
/// an error where none of these exists.
pub fn resolve_so_file(deploy_dir: &str, entries: &Vec<String>, stem: &str, meta_name: &str) -> (r:
    Result<String, ArtifactError>)
    ensures
        match resolved_so(entries@.map_values(|e: String| e@), stem@, meta_name@) {
            Some(name) => r matches Ok(x) && x@ == name,
            None => r matches Err(e) && e.deploy_dir@ == deploy_dir@ && e.stem@ == stem@
                && e.meta_name@ == meta_name@,
        },
{
    let ghost ev = entries@.map_values(|e: String| e@);
    let mut by_stem = replace_hyphens(stem);
    by_stem.append(".so");
    if contains_name(entries, &by_stem) {
        return Ok(by_stem);
    }
    let mut by_meta = replace_hyphens(meta_name);
    by_meta.append(".so");
    if contains_name(entries, &by_meta) {
        return Ok(by_meta);
    }
    let mut sos: Vec<String> = Vec::new();
    let mut i: usize = 0;
    while i < entries.len()
        invariant
            0 <= i <= entries@.len(),
            ev == entries@.map_values(|e: String| e@),
            sos@.map_values(|e: String| e@) == so_files(ev.take(i as int)),
        decreases entries.len() - i,
    {
        assert(ev.take(i as int + 1).drop_last() =~= ev.take(i as int));
        assert(ev.take(i as int + 1).last() == entries@[i as int]@);
        if has_so_extension(&entries[i]) {
            let ghost before = sos@;
            sos.push(entries[i].clone());
            assert(sos@.map_values(|e: String| e@) =~= before.map_values(|e: String| e@).push(
                entries@[i as int]@,
            ));
        }
        i = i + 1;
    }
    assert(ev.take(i as int) =~= ev);
    if sos.len() == 1 {
        return Ok(sos[0].clone());
    }
    Err(
        ArtifactError {
            deploy_dir: String::from_str(deploy_dir),
            stem: String::from_str(stem),
            meta_name: String::from_str(meta_name),
        },
    )
}

/// The program address text of a description: `address`, else
/// `metadata.address`.
pub open spec fn program_text(idl: JsonValue) -> Option<Seq<char>> {
    match text_of(idl.field("address"@)) {
        Some(t) => Some(t),
        None => text_of(field_of(idl.field("metadata"@), "address"@)),
    }
}

/// The package name of a description, empty where absent.
pub open spec fn meta_name_of(idl: JsonValue) -> Seq<char> {
    match text_of(field_of(idl.field("metadata"@), "name"@)) {
        Some(n) => n,
        None => Seq::empty(),
    }
}

/// The instructions of `items` that parse, in order.
pub open spec fn instructions_of(items: Seq<JsonValue>) -> Seq<InstructionView>
    decreases items.len(),
{
    if items.len() == 0 {
        Seq::empty()
    } else {
        match instruction_of(items.last()) {
            Some(ix) => instructions_of(items.drop_last()).push(ix),
            None => instructions_of(items.drop_last()),
        }
    }
}

/// The instructions of a description that parse, in order.
pub open spec fn idl_instructions(idl: JsonValue) -> Seq<InstructionView> {
    match items_of(idl.field("instructions"@)) {
        Some(items) => instructions_of(items),
        None => Seq::empty(),
    }
}

/// Parses the instructions of a description, keeping those that parse.
pub fn parse_instructions(idl: &JsonValue) -> (r: Vec<InstructionSpec>)
    ensures
        r@.map_values(|i: InstructionSpec| i@) == idl_instructions(*idl),
{
    let mut out: Vec<InstructionSpec> = Vec::new();
    if let Some(items) = items_in(idl.get("instructions")) {
        let mut i: usize = 0;
        while i < items.len()
            invariant
                0 <= i <= items@.len(),
                out@.map_values(|i: InstructionSpec| i@) == instructions_of(items@.take(i as int)),
            decreases items.len() - i,
        {
            assert(items@.take(i as int + 1).drop_last() =~= items@.take(i as int));
            assert(items@.take(i as int + 1).last() == items@[i as int]);
            let ghost before = out@;
            if let Some(ix) = parse_instruction(&items[i]) {
                out.push(ix);
                assert(out@.map_values(|i: InstructionSpec| i@) =~= before.map_values(
                    |i: InstructionSpec| i@,
                ).push(out@.last()@));
            }
            i = i + 1;
        }
        assert(items@.take(i as int) =~= items@);
    }
    out
}

/// Builds the program of one description file named `idl_file` (`stem`
/// without its extension), with the names of the entries of the artifact
/// directory. Nothing where the description has no valid program address
/// or no instruction that parses; an error where its artifact cannot be
/// told apart.
pub fn load_program_spec(
    idl_file: &str,
    stem: &str,
    idl: &JsonValue,
    deploy_dir: &str,
    deploy_entries: &Vec<String>,
) -> (r: Result<Option<ProgramSpec>, ArtifactError>)
    ensures
        match program_text(*idl) {
            None => r matches Ok(None),
            Some(t) => match address_from_text(t) {
                None => r matches Ok(None),
                Some(a) => match resolved_so(
                    deploy_entries@.map_values(|e: String| e@),
                    stem@,
                    meta_name_of(*idl),
                ) {
                    None => r matches Err(e) && e.deploy_dir@ == deploy_dir@ && e.stem@ == stem@
                        && e.meta_name@ == meta_name_of(*idl),
                    Some(so) => if idl_instructions(*idl).len() == 0 {
                        r matches Ok(None)
                    } else {
                        r matches Ok(Some(p)) && p@ == (ProgramView {
                            idl_file: idl_file@,
                            program_id: a,
                            deploy_so: so,
                            instructions: idl_instructions(*idl),
                        })
                    },
                },
            },
        },
{
    let text = match text_in(idl.get("address")) {
        Some(t) => t,
        None => match text_in(get_in(idl.get("metadata"), "address")) {
            Some(t) => t,
            None => return Ok(None),
        },
    };
    let program_id = match parse_address(text.as_str()) {
        Some(a) => a,
        None => return Ok(None),
    };
    let empty = String::new();
    let meta_name = match text_in(get_in(idl.get("metadata"), "name")) {
        Some(n) => n,
        None => &empty,
    };
    let deploy_so = resolve_so_file(deploy_dir, deploy_entries, stem, meta_name.as_str())?;
    let instructions = parse_instructions(idl);
    if instructions.len() == 0 {
        return Ok(None);
    }
    let p = ProgramSpec {
        idl_file: String::from_str(idl_file),
        program_id,
        deploy_so,
        instructions,
    };
    Ok(Some(p))
}

/// One description file, already read and parsed.
#[derive(Debug)]
pub struct IdlFile {
    /// The file name.
    pub file_name: String,
    /// The file name without its extension.
    pub stem: String,
    pub document: JsonValue,
}

/// The programs of the descriptions `files`, in order, as
/// [`load_program_spec`] builds them; the first artifact error ends the load.
pub open spec fn programs_of(files: Seq<IdlFile>, entries: Seq<Seq<char>>) -> Result<
    Seq<ProgramView>,
    (Seq<char>, Seq<char>),
>
    decreases files.len(),
{
    if files.len() == 0 {
        Ok(Seq::empty())
    } else {
        match programs_of(files.drop_last(), entries) {
            Err(e) => Err(e),
            Ok(ps) => {
                let f = files.last();
                let idl = f.document;
                match program_text(idl) {
                    None => Ok(ps),
                    Some(t) => match address_from_text(t) {
                        None => Ok(ps),
                        Some(a) => match resolved_so(entries, f.stem@, meta_name_of(idl)) {
                            None => Err((f.stem@, meta_name_of(idl))),
                            Some(so) => if idl_instructions(idl).len() == 0 {
                                Ok(ps)
                            } else {
                                Ok(
                                    ps.push(
                                        ProgramView {
                                            idl_file: f.file_name@,
                                            program_id: a,
                                            deploy_so: so,
                                            instructions: idl_instructions(idl),
                                        },
                                    ),
                                )
                            },
                        },
                    },
                }
            },
        }
    }
}

proof fn lemma_programs_err_stays(files: Seq<IdlFile>, entries: Seq<Seq<char>>, k: int)
    requires
        0 <= k <= files.len(),
        programs_of(files.take(k), entries) is Err,
    ensures
        programs_of(files, entries) == programs_of(files.take(k), entries),
    decreases files.len() - k,
{
    if k < files.len() {
        assert(files.take(k + 1).drop_last() =~= files.take(k));
        lemma_programs_err_stays(files, entries, k + 1);
    } else {
        assert(files.take(k) =~= files);
    }
}

/// Loads the programs of parsed description files against the names of the
/// entries of the artifact directory `deploy_dir`. Descriptions without a
/// valid program address or without an instruction that parses are left
/// out; a description whose artifact cannot be told apart fails the load.
pub fn load_program_specs(files: &Vec<IdlFile>, deploy_dir: &str, deploy_entries: &Vec<String>) -> (r:
    Result<Vec<ProgramSpec>, ArtifactError>)
    ensures
        match programs_of(files@, deploy_entries@.map_values(|e: String| e@)) {
            Ok(ps) => r matches Ok(v) && v@.map_values(|p: ProgramSpec| p@) == ps,
            Err((stem, meta)) => r matches Err(e) && e.deploy_dir@ == deploy_dir@ && e.stem@ == stem
                && e.meta_name@ == meta,
        },
{
    let ghost ev = deploy_entries@.map_values(|e: String| e@);
    let mut out: Vec<ProgramSpec> = Vec::new();
    assert(out@.map_values(|p: ProgramSpec| p@) =~= Seq::<ProgramView>::empty());
    let mut i: usize = 0;
    while i < files.len()
        invariant
            0 <= i <= files@.len(),
            ev == deploy_entries@.map_values(|e: String| e@),
            programs_of(files@.take(i as int), ev) == Ok::<
                Seq<ProgramView>,
                (Seq<char>, Seq<char>),
            >(out@.map_values(|p: ProgramSpec| p@)),
        decreases files.len() - i,
    {
        let f = &files[i];
        assert(files@.take(i as int + 1).drop_last() =~= files@.take(i as int));
        assert(files@.take(i as int + 1).last() == *f);
        match load_program_spec(f.file_name.as_str(), f.stem.as_str(), &f.document, deploy_dir, deploy_entries) {
            Err(e) => {
                proof { lemma_programs_err_stays(files@, ev, i as int + 1); }
                return Err(e);
            },
            Ok(None) => {},
            Ok(Some(p)) => {
                let ghost before = out@;
                out.push(p);
                assert(out@.map_values(|p: ProgramSpec| p@) =~= before.map_values(
                    |p: ProgramSpec| p@,
                ).push(out@.last()@));
            },
        }
        i = i + 1;
    }
    assert(files@.take(i as int) =~= files@);
    Ok(out)
}

} // verus!
