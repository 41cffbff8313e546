use vstd::prelude::*;
use crate::identity::Identity;
use anchor_lang::prelude::Pubkey;

verus! {

/// Longest seed that address derivation accepts, in bytes.
pub const MAX_SEED_LEN: usize = 32;

/// Derivation takes fewer seeds than this, the bump seed included.
pub const MAX_SEEDS: usize = 16;

/// The record kinds; each derives its addresses under its own tag.
#[derive(Clone, Copy, Debug, PartialEq, Eq, Structural)]
pub enum Namespace {
    Arena,
    Transaction,
    Death,
    Bet,
}

/// The tag bytes of a namespace: "arena", "transaction", "death", "bet".
pub open spec fn tag(ns: Namespace) -> Seq<u8> {
    match ns {
        Namespace::Arena => seq![97u8, 114, 101, 110, 97],
        Namespace::Transaction => seq![116u8, 114, 97, 110, 115, 97, 99, 116, 105, 111, 110],
        Namespace::Death => seq![100u8, 101, 97, 116, 104],
        Namespace::Bet => seq![98u8, 101, 116],
    }
}

/// Key material cut into seeds of at most `MAX_SEED_LEN` bytes each.
pub open spec fn chunks(key: Seq<u8>) -> Seq<Seq<u8>>
    decreases key.len(),
{
    if key.len() <= MAX_SEED_LEN {
        seq![key]
    } else {
        seq![key.subrange(0, MAX_SEED_LEN as int)] + chunks(
            key.subrange(MAX_SEED_LEN as int, key.len() as int),
        )
    }
}

/// The seeds under which a record of kind `ns` with key `key` lives.
pub open spec fn address_seeds(ns: Namespace, key: Seq<u8>) -> Seq<Seq<u8>> {
    seq![tag(ns)] + chunks(key)
}

/// Whether derivation accepts the seeds at all (the bump seed is added to them).
pub open spec fn seeds_fit(seeds: Seq<Seq<u8>>) -> bool {
    &&& seeds.len() < MAX_SEEDS
    &&& forall|i: int| 0 <= i < seeds.len() ==> #[trigger] seeds[i].len() <= MAX_SEED_LEN
}

/// The program-derived address and bump seed for `seeds` under `program`,
/// or `None` where no bump seed gives an address off the curve.
pub uninterp spec fn program_address(seeds: Seq<Seq<u8>>, program: Seq<u8>) -> Option<(Seq<u8>, u8)>;

/// Whether an executable result stands for a result over byte sequences.
pub open spec fn same_address(r: Option<(Identity, u8)>, named: Option<(Seq<u8>, u8)>) -> bool {
    match r {
        Some((k, b)) => named == Some((k.bytes@, b)),
        None => named is None,
    }
}

/// The bytes of the program that owns every record of the ledger.
pub open spec fn program_bytes() -> Seq<u8> {
    seq![
        23u8, 66, 201, 121, 146, 73, 19, 219, 202, 13, 62, 128, 103, 40, 180, 127,
        88, 149, 226, 72, 45, 116, 191, 105, 155, 119, 221, 72, 23, 132, 173, 183,
    ]
}

/// The program that owns every record of the ledger.
pub fn program_id() -> (r: Identity)
    ensures
        r.bytes@ == program_bytes(),
{
    let r = Identity {
        bytes: [
            23u8, 66, 201, 121, 146, 73, 19, 219, 202, 13, 62, 128, 103, 40, 180, 127,
            88, 149, 226, 72, 45, 116, 191, 105, 155, 119, 221, 72, 23, 132, 173, 183,
        ],
    };
    assert(r.bytes@ =~= program_bytes());
    r
}

/// Relies on anchor_lang's `Pubkey::try_find_program_address`: the result
/// depends on the seeds and the program alone, and it is `None` when there
/// are too many seeds or a seed is longer than `MAX_SEED_LEN`.
#[verifier::external_body]
fn find_program_address(seeds: &Vec<Vec<u8>>, program: &Identity) -> (r: Option<(Identity, u8)>)
    ensures
        same_address(r, program_address(seeds@.map_values(|s: Vec<u8>| s@), program.bytes@)),
        !seeds_fit(seeds@.map_values(|s: Vec<u8>| s@)) ==> r is None,
{
    let refs: Vec<&[u8]> = seeds.iter().map(|s| s.as_slice()).collect();
    Pubkey::try_find_program_address(&refs, &Pubkey::new_from_array(program.bytes)).map(
        |(k, b)| (Identity { bytes: k.to_bytes() }, b),
    )
}

/// The tag bytes of a namespace.
pub fn tag_bytes(ns: Namespace) -> (r: Vec<u8>)
    ensures
        r@ == tag(ns),
{
    let r = match ns {
        Namespace::Arena => vec![97u8, 114, 101, 110, 97],
        Namespace::Transaction => vec![116u8, 114, 97, 110, 115, 97, 99, 116, 105, 111, 110],
        Namespace::Death => vec![100u8, 101, 97, 116, 104],
        Namespace::Bet => vec![98u8, 101, 116],
    };
    assert(r@ =~= tag(ns));
    r
}

/// The seeds of a record: its tag, then its key cut into chunks.
pub fn seeds_of(ns: Namespace, key: &[u8]) -> (r: Vec<Vec<u8>>)
    ensures
        r@.map_values(|s: Vec<u8>| s@) == address_seeds(ns, key@),
{
    let mut out: Vec<Vec<u8>> = Vec::new();
    out.push(tag_bytes(ns));
    let len = key.len();
    let mut off: usize = 0;
    assert(key@.subrange(0, len as int) =~= key@);
    assert(out@.map_values(|s: Vec<u8>| s@) =~= seq![tag(ns)]);
    loop
        invariant
            off <= len,
            len == key@.len(),
            out@.map_values(|s: Vec<u8>| s@) + chunks(key@.subrange(off as int, len as int))
                == address_seeds(ns, key@),
        decreases len - off,
    {
        let rest = Ghost(key@.subrange(off as int, len as int));
        if len - off <= MAX_SEED_LEN {
            let piece = slice_to_vec(key, off, len);
            proof {
                assert(chunks(rest@) == seq![rest@]);
            }
            out.push(piece);
            assert(out@.map_values(|s: Vec<u8>| s@) =~= address_seeds(ns, key@));
            return out;
        }
        let piece = slice_to_vec(key, off, off + MAX_SEED_LEN);
        let ghost before = out@.map_values(|s: Vec<u8>| s@);
        proof {
            assert(rest@.subrange(0, MAX_SEED_LEN as int) =~= piece@);
            assert(rest@.subrange(MAX_SEED_LEN as int, rest@.len() as int) =~= key@.subrange(
                off + MAX_SEED_LEN,
                len as int,
            ));
        }
        out.push(piece);
        assert(out@.map_values(|s: Vec<u8>| s@) =~= before.push(piece@));
        off = off + MAX_SEED_LEN;
        assert(out@.map_values(|s: Vec<u8>| s@) + chunks(key@.subrange(off as int, len as int))
            =~= before + chunks(rest@));
    }
}

/// The bytes `key[from..to]`, as a vector.
fn slice_to_vec(key: &[u8], from: usize, to: usize) -> (r: Vec<u8>)
    requires
        from <= to <= key@.len(),
    ensures
        r@ == key@.subrange(from as int, to as int),
{
    let mut r: Vec<u8> = Vec::new();
    let mut i: usize = from;
    while i < to
        invariant
            from <= i <= to,
            to <= key@.len(),
            r@ == key@.subrange(from as int, i as int),
        decreases to - i,
    {
        r.push(key[i]);
        assert(r@ =~= key@.subrange(from as int, i + 1));
        i = i + 1;
    }
    r
}

/// The address and bump seed of the record of kind `ns` keyed by `key`:
/// anyone can compute where a record lives from its key alone.
pub fn record_address(ns: Namespace, key: &[u8]) -> (r: Option<(Identity, u8)>)
    ensures
        same_address(r, program_address(address_seeds(ns, key@), program_bytes())),
        !seeds_fit(address_seeds(ns, key@)) ==> r is None,
{
    let seeds = seeds_of(ns, key);
    let program = program_id();
    find_program_address(&seeds, &program)
}

/// Whether `account` is the address under which the record of kind `ns`
/// keyed by `key` lives; the host hands each operation its records by address.
pub fn is_record_address(ns: Namespace, key: &[u8], account: &Identity) -> (r: bool)
    ensures
        r == (program_address(address_seeds(ns, key@), program_bytes()) matches Some((a, _))
            && a == account.bytes@),
{
    match record_address(ns, key) {
        Some((a, _)) => a.same_as(account),
        None => false,
    }
}

/// The key of a bet: the bettor's bytes followed by the agent id's bytes.
pub fn bet_key(bettor: &Identity, agent_id: &[u8]) -> (r: Vec<u8>)
    ensures
        r@ == bettor.bytes@ + agent_id@,
{
    let mut r: Vec<u8> = Vec::new();
    let mut i: usize = 0;
    while i < 32
        invariant
            0 <= i <= 32,
            bettor.bytes@.len() == 32,
            r@ == bettor.bytes@.subrange(0, i as int),
        decreases 32 - i,
    {
        r.push(bettor.bytes[i]);
        assert(r@ =~= bettor.bytes@.subrange(0, i + 1));
        i = i + 1;
    }
    let mut j: usize = 0;
    while j < agent_id.len()
        invariant
            0 <= j <= agent_id@.len(),
            r@ == bettor.bytes@ + agent_id@.subrange(0, j as int),
        decreases agent_id@.len() - j,
    {
        r.push(agent_id[j]);
        assert(r@ =~= bettor.bytes@ + agent_id@.subrange(0, j + 1));
        j = j + 1;
    }
    assert(agent_id@.subrange(0, agent_id@.len() as int) =~= agent_id@);
    r
}

} // verus!
