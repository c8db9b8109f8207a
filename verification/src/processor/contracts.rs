//! The registry of watched contracts: which contract is deployed at which
//! address, read from the `CONTRACTS` setting.
use vstd::prelude::*;
use crate::hex::{
    hex_value, all_hex, hex_decode, hex_of, law_address_hex_round_trip, lemma_hex_text_lowercase, parse_address,
    vec_to_hex,
};
use crate::processor::error::AppError;
use crate::processor::uniswap::UniswapV3Factory;
use crate::text::{
    is_white_space, lemma_trim_end_take, lemma_trim_start_skip, law_trim_shape, law_white_space_chars,
    trim_end, trim_start, all_ascii, ascii_lowercase, lowercase, split, split_text, same_text, to_lowercase_text, trim,
    trim_text, views,
};

verus! {

/// The contract name of a `name:address` entry: the text before the first
/// colon, trimmed.
pub open spec fn entry_name(entry: Seq<char>) -> Seq<char> {
    trim(split(entry, ':')[0])
}

/// The address text of a `name:address` entry: the text between the first
/// and any second colon, trimmed.
pub open spec fn address_text(entry: Seq<char>) -> Seq<char> {
    trim(split(entry, ':')[1])
}

/// The address key of a `name:address` entry: its address text,
/// lowercased.
pub open spec fn entry_key(entry: Seq<char>) -> Seq<char> {
    lowercase(address_text(entry))
}

/// Law: an entry's contract name and address text are its two colon
/// separated parts with the surrounding whitespace removed: each is a piece
/// of its part cut out by dropping only whitespace at either end, and
/// neither starts nor ends with whitespace.
pub proof fn law_entry_parts_trimmed(entry: Seq<char>)
    requires
        entry_well_formed(entry),
    ensures
        ({
            let name = entry_name(entry);
            let part = split(entry, ':')[0];
            &&& name.len() > 0 ==> !is_white_space(name[0]) && !is_white_space(name.last())
            &&& exists|a: int, b: int|
                0 <= a <= b <= part.len() && name == part.subrange(a, b) && (forall|k: int|
                    0 <= k < a ==> is_white_space(#[trigger] part[k])) && (forall|k: int|
                    b <= k < part.len() ==> is_white_space(#[trigger] part[k]))
        }),
        ({
            let text = address_text(entry);
            let part = split(entry, ':')[1];
            &&& text.len() > 0 ==> !is_white_space(text[0]) && !is_white_space(text.last())
            &&& exists|a: int, b: int|
                0 <= a <= b <= part.len() && text == part.subrange(a, b) && (forall|k: int|
                    0 <= k < a ==> is_white_space(#[trigger] part[k])) && (forall|k: int|
                    b <= k < part.len() ==> is_white_space(#[trigger] part[k]))
        }),
{
    law_trim_shape(split(entry, ':')[0]);
    law_trim_shape(split(entry, ':')[1]);
}

/// `n` spaces.
pub open spec fn spaces(n: nat) -> Seq<char> {
    Seq::new(n, |i: int| ' ')
}

/// Law: an entry whose address part is 40 hex digits with spaces around
/// them has exactly those digits as its address text.
pub proof fn law_spaced_hex_address(entry: Seq<char>, before: nat, after: nat, h: Seq<char>)
    requires
        entry_well_formed(entry),
        split(entry, ':')[1] == spaces(before) + h + spaces(after),
        h.len() == 40,
        all_hex(h),
    ensures
        address_text(entry) == h,
{
    let raw = split(entry, ':')[1];
    law_white_space_chars(' ');
    assert forall|k: int| 0 <= k < before implies is_white_space(#[trigger] raw[k]) by {
        assert(raw[k] == ' ');
    }
    lemma_trim_start_skip(raw, before as int);
    let t = raw.skip(before as int);
    assert(t =~= h + spaces(after));
    assert(hex_value(h[0]) is Some);
    law_white_space_chars(h[0]);
    assert(t[0] == h[0]);
    assert(trim_start(t) == t);
    assert forall|k: int| 40 <= k < t.len() implies is_white_space(#[trigger] t[k]) by {
        assert(t[k] == ' ');
    }
    lemma_trim_end_take(t, 40);
    assert(t.take(40) =~= h);
    assert(hex_value(h[39]) is Some);
    law_white_space_chars(h[39]);
    assert(h.last() == h[39]);
    assert(trim_end(h) == h);
}

/// Law: an entry `name : <40 hex digits>` with spaces around the digits,
/// when no later entry names the same address, registers the canonical
/// lowercase hex of those digits under the entry's name.
pub proof fn law_spaced_entry_registers(
    entries: Seq<Seq<char>>,
    i: int,
    before: nat,
    after: nat,
    h: Seq<char>,
)
    requires
        ascii_keys_lowered(entries),
        0 <= i < entries.len(),
        entry_well_formed(entries[i]),
        split(entries[i], ':')[1] == spaces(before) + h + spaces(after),
        h.len() == 40,
        all_hex(h),
        forall|j: int|
            i < j < entries.len() ==> all_ascii(address_text(#[trigger] entries[j]))
                && ascii_lowercase(address_text(entries[j])) != ascii_lowercase(h),
    ensures
        registry_of(entries).contains_key(hex_of(hex_decode(h))),
        registry_of(entries)[hex_of(hex_decode(h))] == entry_name(entries[i]),
{
    law_spaced_hex_address(entries[i], before, after, h);
    law_registered_address_resolves(entries, i);
}

/// Law: no contract name in a registry starts or ends with whitespace.
pub proof fn law_registry_names_trimmed(entries: Seq<Seq<char>>)
    ensures
        forall|k: Seq<char>|
            #[trigger] registry_of(entries).contains_key(k) ==> (registry_of(entries)[k].len() > 0
                ==> !is_white_space(registry_of(entries)[k][0]) && !is_white_space(
                registry_of(entries)[k].last(),
            )),
    decreases entries.len(),
{
    if entries.len() > 0 {
        let d = registry_of(entries.drop_last());
        let m = registry_of(entries);
        let key = entry_key(entries.last());
        law_registry_names_trimmed(entries.drop_last());
        law_trim_shape(split(entries.last(), ':')[0]);
        assert forall|k: Seq<char>| #[trigger] m.contains_key(k) implies (m[k].len() > 0
            ==> !is_white_space(m[k][0]) && !is_white_space(m[k].last())) by {
            if k != key {
                assert(d.contains_key(k));
                assert(m[k] == d[k]);
            }
        }
    }
}

/// The key of every entry whose address text is ASCII is that text with
/// `A`..`Z` lowered.
pub open spec fn ascii_keys_lowered(entries: Seq<Seq<char>>) -> bool {
    forall|i: int|
        0 <= i < entries.len() && all_ascii(address_text(#[trigger] entries[i])) ==> entry_key(
            entries[i],
        ) == ascii_lowercase(address_text(entries[i]))
}

/// Entry `i` names, as its address text, 40 hex digits of either case, and
/// every later entry names an ASCII address text that differs from it up
/// to letter case.
pub open spec fn names_hex_address_last(entries: Seq<Seq<char>>, i: int) -> bool {
    let h = address_text(entries[i]);
    &&& 0 <= i < entries.len()
    &&& h.len() == 40
    &&& all_hex(h)
    &&& forall|j: int|
        i < j < entries.len() ==> all_ascii(address_text(#[trigger] entries[j]))
            && ascii_lowercase(address_text(entries[j])) != ascii_lowercase(h)
}

/// Law: an entry naming an address as 40 hex digits, in any letter case,
/// registers that address's canonical hex text under the entry's name,
/// unless a later entry names the same address.
pub proof fn law_registered_address_resolves(entries: Seq<Seq<char>>, i: int)
    requires
        ascii_keys_lowered(entries),
        names_hex_address_last(entries, i),
    ensures
        registry_of(entries).contains_key(hex_of(hex_decode(address_text(entries[i])))),
        registry_of(entries)[hex_of(hex_decode(address_text(entries[i])))] == entry_name(
            entries[i],
        ),
{
    let h = address_text(entries[i]);
    lemma_hex_text_lowercase(h);
    assert(entry_key(entries[i]) == hex_of(hex_decode(h)));
    assert forall|j: int| i < j < entries.len() implies entry_key(#[trigger] entries[j])
        != entry_key(entries[i]) by {
        assert(all_ascii(address_text(entries[j])));
    }
    law_last_entry_wins(entries, i);
}

/// An entry holds at least one colon.
pub open spec fn entry_well_formed(entry: Seq<char>) -> bool {
    split(entry, ':').len() >= 2
}

/// Every comma-separated entry of the `CONTRACTS` text holds a colon.
pub open spec fn contracts_well_formed(text: Seq<char>) -> bool {
    forall|i: int|
        0 <= i < split(text, ',').len() ==> entry_well_formed(#[trigger] split(text, ',')[i])
}

/// The registry that the entries describe: each entry maps its address
/// key to its contract name; a later entry for the same key replaces an
/// earlier one.
pub open spec fn registry_of(entries: Seq<Seq<char>>) -> Map<Seq<char>, Seq<char>>
    decreases entries.len(),
{
    if entries.len() == 0 {
        Map::empty()
    } else {
        registry_of(entries.drop_last()).insert(
            entry_key(entries.last()),
            entry_name(entries.last()),
        )
    }
}

/// Law: an address resolves to the name given in the last entry for it;
/// entries for other addresses do not change that.
pub proof fn law_last_entry_wins(entries: Seq<Seq<char>>, i: int)
    requires
        0 <= i < entries.len(),
        forall|j: int|
            i < j < entries.len() ==> entry_key(#[trigger] entries[j]) != entry_key(entries[i]),
    ensures
        registry_of(entries).contains_key(entry_key(entries[i])),
        registry_of(entries)[entry_key(entries[i])] == entry_name(entries[i]),
    decreases entries.len(),
{
    if i < entries.len() - 1 {
        let d = entries.drop_last();
        assert forall|j: int| i < j < d.len() implies entry_key(#[trigger] d[j]) != entry_key(
            d[i],
        ) by {
            assert(d[j] == entries[j]);
        }
        law_last_entry_wins(d, i);
        assert(entries[entries.len() - 1] == entries.last());
        assert(d[i] == entries[i]);
    }
}

/// Law: an address that no entry names is not registered.
pub proof fn law_unnamed_address_is_absent(entries: Seq<Seq<char>>, key: Seq<char>)
    requires
        forall|j: int| 0 <= j < entries.len() ==> entry_key(#[trigger] entries[j]) != key,
    ensures
        !registry_of(entries).contains_key(key),
    decreases entries.len(),
{
    if entries.len() > 0 {
        let d = entries.drop_last();
        assert forall|j: int| 0 <= j < d.len() implies entry_key(#[trigger] d[j]) != key by {
            assert(d[j] == entries[j]);
        }
        law_unnamed_address_is_absent(d, key);
        assert(entries[entries.len() - 1] == entries.last());
    }
}

/// The map that a list of (key, value) pairs holds, a later pair for a key
/// replacing an earlier one.
pub open spec fn pairs_map(e: Seq<(String, String)>) -> Map<Seq<char>, Seq<char>>
    decreases e.len(),
{
    if e.len() == 0 {
        Map::empty()
    } else {
        pairs_map(e.drop_last()).insert(e.last().0@, e.last().1@)
    }
}

/// No key occurs twice among the pairs.
pub open spec fn keys_unique(e: Seq<(String, String)>) -> bool {
    forall|i: int, j: int|
        0 <= i < e.len() && 0 <= j < e.len() && i != j ==> (#[trigger] e[i]).0@ != (
        #[trigger] e[j]).0@
}

proof fn lemma_pairs_map_lookup(e: Seq<(String, String)>, i: int)
    requires
        keys_unique(e),
        0 <= i < e.len(),
    ensures
        pairs_map(e).contains_key(e[i].0@),
        pairs_map(e)[e[i].0@] == e[i].1@,
    decreases e.len(),
{
    if i < e.len() - 1 {
        let d = e.drop_last();
        assert(keys_unique(d)) by {
            assert forall|a: int, b: int| 0 <= a < d.len() && 0 <= b < d.len() && a != b implies (
            #[trigger] d[a]).0@ != (#[trigger] d[b]).0@ by {
                assert(d[a] == e[a] && d[b] == e[b]);
            }
        }
        lemma_pairs_map_lookup(d, i);
        assert(e[e.len() - 1] == e.last());
        assert(d[i] == e[i]);
    }
}

proof fn lemma_pairs_map_absent(e: Seq<(String, String)>, k: Seq<char>)
    requires
        forall|i: int| 0 <= i < e.len() ==> (#[trigger] e[i]).0@ != k,
    ensures
        !pairs_map(e).contains_key(k),
    decreases e.len(),
{
    if e.len() > 0 {
        let d = e.drop_last();
        assert forall|i: int| 0 <= i < d.len() implies (#[trigger] d[i]).0@ != k by {
            assert(d[i] == e[i]);
        }
        lemma_pairs_map_absent(d, k);
        assert(e[e.len() - 1] == e.last());
    }
}

proof fn lemma_pairs_map_update(e: Seq<(String, String)>, j: int, p: (String, String))
    requires
        keys_unique(e),
        0 <= j < e.len(),
        e[j].0@ == p.0@,
    ensures
        pairs_map(e.update(j, p)) == pairs_map(e).insert(p.0@, p.1@),
    decreases e.len(),
{
    let e2 = e.update(j, p);
    if j == e.len() - 1 {
        assert(e2.drop_last() =~= e.drop_last());
        assert(pairs_map(e2) =~= pairs_map(e).insert(p.0@, p.1@));
    } else {
        let d = e.drop_last();
        assert(e2.drop_last() =~= d.update(j, p));
        assert(keys_unique(d)) by {
            assert forall|a: int, b: int| 0 <= a < d.len() && 0 <= b < d.len() && a != b implies (
            #[trigger] d[a]).0@ != (#[trigger] d[b]).0@ by {
                assert(d[a] == e[a] && d[b] == e[b]);
            }
        }
        lemma_pairs_map_update(d, j, p);
        assert(e[e.len() - 1] == e.last());
        assert(e2.last() == e.last());
        assert(e.last().0@ != p.0@);
        assert(pairs_map(e2) =~= pairs_map(e).insert(p.0@, p.1@));
    }
}

/// Maps `key` to `name` in the pairs: replaces the pair of `key` if there
/// is one, or else adds one.
fn insert_pair(entries: &mut Vec<(String, String)>, key: String, name: String)
    requires
        keys_unique(old(entries)@),
    ensures
        keys_unique(final(entries)@),
        pairs_map(final(entries)@) == pairs_map(old(entries)@).insert(key@, name@),
{
    let n = entries.len();
    let mut j: usize = 0;
    while j < n
        invariant
            n == entries@.len(),
            j <= n,
            entries@ == old(entries)@,
            keys_unique(entries@),
            forall|i: int| 0 <= i < j ==> (#[trigger] entries@[i]).0@ != key@,
        decreases n - j,
    {
        if entries[j].0 == key {
            let ghost before = entries@;
            let ghost p = (key, name);
            proof {
                lemma_pairs_map_update(before, j as int, p);
            }
            entries[j] = (key, name);
            proof {
                assert(entries@ == before.update(j as int, p));
                assert forall|a: int, b: int|
                    0 <= a < entries@.len() && 0 <= b < entries@.len() && a != b implies (
                #[trigger] entries@[a]).0@ != (#[trigger] entries@[b]).0@ by {
                    assert(before[a].0@ != before[b].0@);
                }
            }
            return ;
        }
        j = j + 1;
    }
    let ghost before = entries@;
    entries.push((key, name));
    proof {
        assert(entries@.drop_last() =~= before);
        assert forall|a: int, b: int|
            0 <= a < entries@.len() && 0 <= b < entries@.len() && a != b implies (
        #[trigger] entries@[a]).0@ != (#[trigger] entries@[b]).0@ by {
            if a < before.len() && b < before.len() {
                assert(entries@[a] == before[a] && entries@[b] == before[b]);
            } else if a < before.len() {
                assert(entries@[a] == before[a]);
            } else {
                assert(entries@[b] == before[b]);
            }
        }
    }
}

/// The contracts being watched, by lowercase hex address (without `0x`).
pub struct ContractRegistry {
    registry: Vec<(String, String)>,
}

impl View for ContractRegistry {
    type V = Map<Seq<char>, Seq<char>>;

    closed spec fn view(&self) -> Map<Seq<char>, Seq<char>> {
        pairs_map(self.registry@)
    }
}

/// What handles the logs of a registered address.
pub enum ProcessorTarget {
    /// The Uniswap V3 factory at this address.
    UniswapV3Factory([u8; 20]),
}

impl ContractRegistry {
    #[verifier::type_invariant]
    closed spec fn keys_are_unique(self) -> bool {
        keys_unique(self.registry@)
    }

    /// Whether the `CONTRACTS` text `text` can be read into a registry:
    /// every comma-separated entry holds a colon.
    pub fn is_well_formed(text: &str) -> (r: bool)
        ensures
            r == contracts_well_formed(text@),
    {
        let entries = split_text(text, ',');
        let mut i: usize = 0;
        while i < entries.len()
            invariant
                views(entries@) == split(text@, ','),
                i <= entries@.len(),
                forall|k: int| 0 <= k < i ==> entry_well_formed(#[trigger] split(text@, ',')[k]),
            decreases entries@.len() - i,
        {
            let parts = split_text(entries[i].as_str(), ':');
            proof {
                assert(views(entries@)[i as int] == entries@[i as int]@);
            }
            if parts.len() < 2 {
                return false;
            }
            i = i + 1;
        }
        true
    }

    /// The registry that the `CONTRACTS` setting describes: each
    /// comma-separated `name:address` entry maps its address, trimmed and
    /// lowercased, to its trimmed name, a later entry replacing an earlier
    /// one for the same address. `MissingEnvVar("CONTRACTS")` when the
    /// setting is unset. Every entry must hold a colon.
    pub fn new(setting: Option<&str>) -> (r: Result<Self, AppError>)
        requires
            setting matches Some(text) ==> contracts_well_formed(text@),
        ensures
            match setting {
                None => r matches Err(AppError::MissingEnvVar(v)) && v@ == "CONTRACTS"@,
                Some(text) => r matches Ok(reg) && reg@ == registry_of(split(text@, ',')),
            },
            setting matches Some(text) ==> ascii_keys_lowered(split(text@, ',')),
            forall|i: int|
                #![trigger names_hex_address_last(split(setting->0@, ','), i)]
                setting is Some && names_hex_address_last(split(setting->0@, ','), i) ==> ({
                    let key = hex_of(hex_decode(address_text(split(setting->0@, ',')[i])));
                    r matches Ok(reg) && reg@.contains_key(key) && reg@[key] == entry_name(
                        split(setting->0@, ',')[i],
                    )
                }),
    {
        let text = match setting {
            None => {
                return Err(AppError::MissingEnvVar("CONTRACTS".to_owned()));
            },
            Some(t) => t,
        };
        let pieces = split_text(text, ',');
        let ghost all = split(text@, ',');
        let mut registry: Vec<(String, String)> = Vec::new();
        let mut i: usize = 0;
        proof {
            assert(all.take(0) =~= Seq::<Seq<char>>::empty());
        }
        while i < pieces.len()
            invariant
                views(pieces@) == all,
                all == split(text@, ','),
                contracts_well_formed(text@),
                i <= pieces@.len(),
                keys_unique(registry@),
                pairs_map(registry@) == registry_of(all.take(i as int)),
                forall|k: int|
                    0 <= k < i && all_ascii(address_text(#[trigger] all[k])) ==> entry_key(all[k])
                        == ascii_lowercase(address_text(all[k])),
            decreases pieces@.len() - i,
        {
            let piece = pieces[i].as_str();
            proof {
                assert(views(pieces@)[i as int] == pieces@[i as int]@);
                assert(entry_well_formed(all[i as int]));
            }
            let details = split_text(piece, ':');
            proof {
                assert(views(details@)[0] == details@[0]@);
                assert(views(details@)[1] == details@[1]@);
            }
            let name = trim_text(details[0].as_str());
            let address = trim_text(details[1].as_str());
            let key = to_lowercase_text(address.as_str());
            insert_pair(&mut registry, key, name);
            proof {
                let t = all.take(i + 1);
                assert(t.drop_last() =~= all.take(i as int));
                assert(t.last() == all[i as int]);
                assert(address@ == address_text(all[i as int]));
            }
            i = i + 1;
        }
        proof {
            assert(all.take(pieces@.len() as int) =~= all);
            assert(ascii_keys_lowered(all));
            assert forall|i: int| names_hex_address_last(all, i) implies ({
                let key = hex_of(hex_decode(address_text(all[i])));
                registry_of(all).contains_key(key) && registry_of(all)[key] == entry_name(all[i])
            }) by {
                law_registered_address_resolves(all, i);
            }
        }
        Ok(ContractRegistry { registry })
    }

    /// The contract name registered for `key`, if any.
    fn lookup(&self, key: &String) -> (r: Option<&String>)
        ensures
            r is Some <==> self@.contains_key(key@),
            r matches Some(name) ==> name@ == self@[key@],
    {
        proof {
            use_type_invariant(self);
        }
        let n = self.registry.len();
        let mut j: usize = 0;
        while j < n
            invariant
                n == self.registry@.len(),
                j <= n,
                keys_unique(self.registry@),
                forall|i: int| 0 <= i < j ==> (#[trigger] self.registry@[i]).0@ != key@,
            decreases n - j,
        {
            if self.registry[j].0 == *key {
                proof {
                    lemma_pairs_map_lookup(self.registry@, j as int);
                }
                return Some(&self.registry[j].1);
            }
            j = j + 1;
        }
        proof {
            lemma_pairs_map_absent(self.registry@, key@);
        }
        None
    }

    /// What handles the logs emitted at `address`: the contract registered
    /// under the address's lowercase hex text. `UnsupportedAddress` with
    /// that text when none is; `UnsupportedContract` with the registered
    /// name when it is not one the processor implements.
    pub fn get_processor(&self, address: [u8; 20]) -> (r: Result<ProcessorTarget, AppError>)
        ensures
            ({
                let key = hex_of(address@);
                match r {
                    Ok(ProcessorTarget::UniswapV3Factory(a)) => {
                        &&& self@.contains_key(key)
                        &&& self@[key] == UniswapV3Factory::NAME@
                        &&& a@ == address@
                    },
                    Err(AppError::UnsupportedAddress(text)) => !self@.contains_key(key) && text@
                        == key,
                    Err(AppError::UnsupportedContract(name)) => {
                        &&& self@.contains_key(key)
                        &&& self@[key] != UniswapV3Factory::NAME@
                        &&& name@ == self@[key]
                    },
                    Err(_) => false,
                }
            }),
    {
        let log_address = vec_to_hex(&address);
        match self.lookup(&log_address) {
            Some(contract_name) => {
                if same_text(contract_name.as_str(), UniswapV3Factory::NAME) {
                    proof {
                        law_address_hex_round_trip(address@);
                    }
                    match parse_address(log_address.as_str()) {
                        Some(parsed) => Ok(ProcessorTarget::UniswapV3Factory(parsed)),
                        None => Err(AppError::InvalidAddress(log_address)),
                    }
                } else {
                    Err(AppError::UnsupportedContract(contract_name.clone()))
                }
            },
            None => Err(AppError::UnsupportedAddress(log_address)),
        }
    }
}

} // verus!
