//! Looking secrets up by the name of the note that holds them.

use crate::crypt::spec_decrypt_cipher_string;
use crate::crypt::spec_expand;
use crate::encoding::decode;
use crate::env_vars::insert_all;
use crate::env_vars::pairs_view;
use crate::env_vars::EnvVars;
use crate::env_vars::Pair;
use crate::error::Error;
use crate::error::Field;
use crate::error::Segment;
use crate::models::spec_split_key;
use crate::models::spec_text;
use crate::models::CipherString;
use crate::models::Decrypt;
use crate::models::MasterKey;
use crate::models::SymmetricKey;
use crate::models::SymmetricKeyView;
use crate::primitives::contains;
use crate::primitives::spec_base64_decode;
use crate::primitives::spec_contains;
use crate::primitives::spec_to_lowercase;
use crate::primitives::to_lowercase;
use crate::records::Cipher;
use crate::records::CipherField;
use crate::records::text_of;
use crate::records::SyncResponse;
use crate::records::TokenResponse;
use crate::records::SECURE_NOTE;
use vstd::prelude::*;
use vstd::utf8::encode_utf8;

verus! {

/// A secure note whose name and fields were decrypted.
#[derive(Debug)]
pub struct Entry {
    pub name: String,
    pub fields: Vec<(String, String)>,
}

/// What an `Entry` holds.
pub struct EntryView {
    pub name: Seq<char>,
    pub fields: Seq<Pair>,
}

impl View for Entry {
    type V = EntryView;

    open spec fn view(&self) -> EntryView {
        EntryView { name: self.name@, fields: pairs_view(self.fields@) }
    }
}

/// What a sequence of entries holds.
pub open spec fn entries_view(entries: Seq<Entry>) -> Seq<EntryView> {
    entries.map_values(|entry: Entry| entry@)
}

/// Whether `a` comes before `b`, or equals it, in the order of strings:
/// either `a` is a prefix of `b`, or the first byte in which they differ is
/// smaller in `a`.
pub open spec fn lex_le(a: Seq<u8>, b: Seq<u8>) -> bool {
    exists|k: int|
        0 <= k <= a.len() && k <= b.len() && #[trigger] a.take(k) == b.take(k) && (k == a.len() || (
        k < b.len() && a[k] < b[k]))
}

/// Whether the name `a` sorts before the name `b` or equals it: names are
/// ordered as strings are, byte by byte in UTF-8.
pub open spec fn name_le(a: Seq<char>, b: Seq<char>) -> bool {
    lex_le(encode_utf8(a), encode_utf8(b))
}

/// The text that a cipher string decrypts to under `key`.
pub open spec fn spec_decrypt_text(cs: CipherString, key: SymmetricKeyView) -> Result<
    Seq<char>,
    Error,
> {
    spec_text(spec_decrypt_cipher_string(key, cs@))
}

/// The name and value of a field, where both decrypt to text.
pub open spec fn spec_field(field: CipherField, key: SymmetricKeyView) -> Option<Pair> {
    match (spec_decrypt_text(field.name, key), spec_decrypt_text(field.value, key)) {
        (Ok(name), Ok(value)) => Some((name, value)),
        _ => None,
    }
}

/// The names and values of those of `fields` that decrypt, in their order.
/// A field of which the name or the value fails to decrypt is left out;
/// nothing stands in for it.
pub open spec fn spec_fields(fields: Seq<CipherField>, key: SymmetricKeyView) -> Seq<Pair>
    decreases fields.len(),
{
    if fields.len() == 0 {
        Seq::empty()
    } else {
        let rest = spec_fields(fields.drop_last(), key);
        match spec_field(fields.last(), key) {
            Some(pair) => rest.push(pair),
            None => rest,
        }
    }
}

/// The fields that an entry lists; an entry may list none.
pub open spec fn listed_fields(cipher: Cipher) -> Seq<CipherField> {
    match cipher.fields {
        Some(fields) => fields@,
        None => Seq::empty(),
    }
}

/// Whether a decrypted name matches a query that is already in lower case:
/// the name, in lower case, contains it.
pub open spec fn name_matches(name: Seq<char>, needle: Seq<char>) -> bool {
    spec_contains(spec_to_lowercase(name), needle)
}

/// What an entry contributes to a lookup. It contributes if it is a secure
/// note and its name decrypts to text that matches; an entry whose name
/// fails to decrypt is left out. What it contributes are those of its
/// fields that decrypt.
pub open spec fn spec_entry(cipher: Cipher, key: SymmetricKeyView, needle: Seq<char>) -> Option<
    EntryView,
> {
    if cipher.cipher_type != SECURE_NOTE {
        None
    } else {
        match spec_decrypt_text(cipher.name, key) {
            Err(_) => None,
            Ok(name) => if !name_matches(name, needle) {
                None
            } else {
                Some(EntryView { name, fields: spec_fields(listed_fields(cipher), key) })
            },
        }
    }
}

/// The entries that contribute to a lookup, in the order of the vault.
pub open spec fn spec_matches(ciphers: Seq<Cipher>, key: SymmetricKeyView, needle: Seq<char>) -> Seq<
    EntryView,
>
    decreases ciphers.len(),
{
    if ciphers.len() == 0 {
        Seq::empty()
    } else {
        let rest = spec_matches(ciphers.drop_last(), key, needle);
        match spec_entry(ciphers.last(), key, needle) {
            Some(entry) => rest.push(entry),
            None => rest,
        }
    }
}

/// `sorted` with `entry` put in before the first entry whose name does not
/// sort before its own.
pub open spec fn spec_insert_sorted(entry: EntryView, sorted: Seq<EntryView>) -> Seq<EntryView>
    decreases sorted.len(),
{
    if sorted.len() == 0 {
        seq![entry]
    } else if name_le(entry.name, sorted.first().name) {
        seq![entry] + sorted
    } else {
        seq![sorted.first()] + spec_insert_sorted(entry, sorted.drop_first())
    }
}

/// The entries in ascending order of name. Entries of the same name keep the
/// order they came in.
pub open spec fn spec_sort(entries: Seq<EntryView>) -> Seq<EntryView>
    decreases entries.len(),
{
    if entries.len() == 0 {
        Seq::empty()
    } else {
        spec_insert_sorted(entries.first(), spec_sort(entries.drop_first()))
    }
}

/// The named values of `entries` taken together. The entries are visited in
/// order, and each one's fields in order, so that a later value replaces an
/// earlier one of the same name.
pub open spec fn spec_collect(entries: Seq<EntryView>) -> Map<Seq<char>, Seq<char>>
    decreases entries.len(),
{
    if entries.len() == 0 {
        Map::empty()
    } else {
        insert_all(spec_collect(entries.drop_last()), entries.last().fields)
    }
}

/// The key of the vault: the profile's wrapped key, decrypted under the pair
/// that the token's master key expands to, and split into its halves.
pub open spec fn spec_vault_key(master_key: Option<Seq<char>>, wrapped: CipherString) -> Result<
    SymmetricKeyView,
    Error,
> {
    match master_key {
        None => Err(Error::Record(Field::MasterKey)),
        Some(text) => match spec_base64_decode(encode_utf8(text)) {
            None => Err(Error::Encoding(Segment::Key)),
            Some(seed) => match spec_expand(seed) {
                Err(e) => Err(e),
                Ok(outer) => match spec_decrypt_cipher_string(outer, wrapped@) {
                    Err(e) => Err(e),
                    Ok(bytes) => if bytes.len() < 64 {
                        Err(Error::KeyDerivation)
                    } else {
                        Ok(spec_split_key(bytes))
                    },
                },
            },
        },
    }
}

/// What looking `name` up in a vault gives: the fields of every matching
/// note, notes taken in ascending order of their names.
pub open spec fn spec_get_by_name(
    name: Seq<char>,
    master_key: Option<Seq<char>>,
    data: SyncResponse,
) -> Result<Map<Seq<char>, Seq<char>>, Error> {
    match spec_vault_key(master_key, data.profile.key) {
        Err(e) => Err(e),
        Ok(key) => Ok(
            spec_collect(spec_sort(spec_matches(data.ciphers@, key, spec_to_lowercase(name)))),
        ),
    }
}

/// Compares two byte strings in the order of strings.
pub fn bytes_le(a: &[u8], b: &[u8]) -> (le: bool)
    ensures
        le == lex_le(a@, b@),
{
    let mut i: usize = 0;
    while i < a.len() && i < b.len()
        invariant
            i <= a.len(),
            i <= b.len(),
            a@.take(i as int) == b@.take(i as int),
        decreases a.len() - i,
    {
        if a[i] != b[i] {
            let le = a[i] < b[i];
            proof {
                if !le {
                    assert forall|k: int|
                        !(0 <= k <= a@.len() && k <= b@.len() && #[trigger] a@.take(k) == b@.take(k)
                            && (k == a@.len() || (k < b@.len() && a@[k] < b@[k]))) by {
                        if 0 <= k <= a@.len() && k <= b@.len() && a@.take(k) == b@.take(k) {
                            if k > i {
                                assert(a@.take(k)[i as int] == a@[i as int]);
                                assert(b@.take(k)[i as int] == b@[i as int]);
                            } else if k < i {
                                assert(a@.take(i as int)[k] == a@[k]);
                                assert(b@.take(i as int)[k] == b@[k]);
                            }
                        }
                    }
                }
            }
            return le;
        }
        assert(a@.take(i + 1) =~= a@.take(i as int).push(a@[i as int]));
        assert(b@.take(i + 1) =~= b@.take(i as int).push(b@[i as int]));
        i = i + 1;
    }
    let le = i == a.len();
    proof {
        if !le {
            assert forall|k: int|
                !(0 <= k <= a@.len() && k <= b@.len() && #[trigger] a@.take(k) == b@.take(k) && (k
                    == a@.len() || (k < b@.len() && a@[k] < b@[k]))) by {
                if 0 <= k <= a@.len() && k <= b@.len() && a@.take(k) == b@.take(k) {
                    if k < i {
                        assert(a@.take(i as int)[k] == a@[k]);
                        assert(b@.take(i as int)[k] == b@[k]);
                    }
                }
            }
        }
    }
    le
}

/// Decrypts the name and the value of a field.
fn decrypt_field(field: &CipherField, key: &SymmetricKey) -> (r: Option<(String, String)>)
    ensures
        match r {
            Some(pair) => spec_field(*field, key@) == Some((pair.0@, pair.1@)),
            None => spec_field(*field, key@) is None,
        },
{
    let name = match field.name.decrypt_string(key) {
        Ok(name) => name,
        Err(_) => { return None; },
    };
    let value = match field.value.decrypt_string(key) {
        Ok(value) => value,
        Err(_) => { return None; },
    };
    Some((name, value))
}

/// Decrypts the fields of an entry, leaving out those that fail to decrypt.
fn decrypt_fields(cipher: &Cipher, key: &SymmetricKey) -> (out: Vec<(String, String)>)
    ensures
        pairs_view(out@) == spec_fields(listed_fields(*cipher), key@),
{
    let mut out: Vec<(String, String)> = Vec::new();
    assert(pairs_view(out@) =~= Seq::<Pair>::empty());
    match &cipher.fields {
        None => {},
        Some(fields) => {
            let mut i: usize = 0;
            assert(fields@.take(0) =~= Seq::<CipherField>::empty());
            while i < fields.len()
                invariant
                    i <= fields@.len(),
                    pairs_view(out@) == spec_fields(fields@.take(i as int), key@),
                decreases fields@.len() - i,
            {
                let ghost before = pairs_view(out@);
                assert(fields@.take(i + 1).drop_last() =~= fields@.take(i as int));
                assert(fields@.take(i + 1).last() == fields@[i as int]);
                match decrypt_field(&fields[i], key) {
                    Some(pair) => {
                        out.push(pair);
                        assert(pairs_view(out@) =~= before.push((pair.0@, pair.1@)));
                    },
                    None => {},
                }
                i = i + 1;
            }
            assert(fields@.take(i as int) =~= fields@);
        },
    }
    out
}

/// Decrypts an entry if it contributes to a lookup for `needle`, which is
/// the query in lower case.
fn decrypt_entry(cipher: &Cipher, key: &SymmetricKey, needle: &str) -> (r: Option<Entry>)
    ensures
        match r {
            Some(entry) => spec_entry(*cipher, key@, needle@) == Some(entry@),
            None => spec_entry(*cipher, key@, needle@) is None,
        },
{
    if cipher.cipher_type != SECURE_NOTE {
        return None;
    }
    let name = match cipher.name.decrypt_string(key) {
        Ok(name) => name,
        Err(_) => { return None; },
    };
    let lower = to_lowercase(name.as_str());
    if !contains(lower.as_str(), needle) {
        return None;
    }
    let fields = decrypt_fields(cipher, key);
    Some(Entry { name, fields })
}

/// Decrypts the entries that contribute to a lookup for `needle`, which is
/// the query in lower case.
pub fn matching_entries(ciphers: &Vec<Cipher>, key: &SymmetricKey, needle: &str) -> (out: Vec<Entry>)
    ensures
        entries_view(out@) == spec_matches(ciphers@, key@, needle@),
{
    let mut out: Vec<Entry> = Vec::new();
    let mut i: usize = 0;
    assert(ciphers@.take(0) =~= Seq::<Cipher>::empty());
    assert(entries_view(out@) =~= Seq::<EntryView>::empty());
    while i < ciphers.len()
        invariant
            i <= ciphers@.len(),
            entries_view(out@) == spec_matches(ciphers@.take(i as int), key@, needle@),
        decreases ciphers@.len() - i,
    {
        let ghost before = entries_view(out@);
        assert(ciphers@.take(i + 1).drop_last() =~= ciphers@.take(i as int));
        assert(ciphers@.take(i + 1).last() == ciphers@[i as int]);
        match decrypt_entry(&ciphers[i], key, needle) {
            Some(entry) => {
                out.push(entry);
                assert(entries_view(out@) =~= before.push(entry@));
            },
            None => {},
        }
        i = i + 1;
    }
    assert(ciphers@.take(i as int) =~= ciphers@);
    out
}

/// Where `entry` goes in `sorted`: before the first entry whose name does
/// not sort before its own.
proof fn lemma_insert_position(entry: EntryView, sorted: Seq<EntryView>, at: int)
    requires
        0 <= at <= sorted.len(),
        forall|j: int| 0 <= j < at ==> !name_le(entry.name, #[trigger] sorted[j].name),
        at < sorted.len() ==> name_le(entry.name, sorted[at].name),
    ensures
        spec_insert_sorted(entry, sorted) == sorted.insert(at, entry),
    decreases sorted.len(),
{
    if sorted.len() == 0 {
        assert(sorted.insert(at, entry) =~= seq![entry]);
    } else if at == 0 {
        assert(sorted.insert(0, entry) =~= seq![entry] + sorted);
    } else {
        let rest = sorted.drop_first();
        assert(!name_le(entry.name, sorted[0].name));
        assert forall|j: int| 0 <= j < at - 1 implies !name_le(
            entry.name,
            #[trigger] rest[j].name,
        ) by {
            assert(rest[j] == sorted[j + 1]);
        }
        lemma_insert_position(entry, rest, at - 1);
        assert(sorted.insert(at, entry) =~= seq![sorted.first()] + rest.insert(at - 1, entry));
    }
}

/// Sorts entries by name, ascending. Entries of the same name keep the order
/// they came in.
pub fn sort_by_name(entries: Vec<Entry>) -> (sorted: Vec<Entry>)
    ensures
        entries_view(sorted@) == spec_sort(entries_view(entries@)),
{
    let ghost all = entries_view(entries@);
    let mut rest = entries;
    let mut sorted: Vec<Entry> = Vec::new();
    assert(all.skip(all.len() as int) =~= Seq::<EntryView>::empty());
    assert(entries_view(sorted@) =~= Seq::<EntryView>::empty());
    while rest.len() > 0
        invariant
            rest@.len() <= all.len(),
            entries_view(rest@) == all.take(rest@.len() as int),
            entries_view(sorted@) == spec_sort(all.skip(rest@.len() as int)),
        decreases rest@.len(),
    {
        let ghost n = rest@.len() as int;
        let ghost before = entries_view(sorted@);
        let ghost prior = rest@;
        let entry = rest.pop().unwrap();
        assert(entry@ == all[n - 1]) by {
            assert(entries_view(prior)[n - 1] == entry@);
            assert(all.take(n)[n - 1] == all[n - 1]);
        }
        let mut at: usize = 0;
        while at < sorted.len() && !bytes_le(
            entry.name.as_str().as_bytes(),
            sorted[at].name.as_str().as_bytes(),
        )
            invariant
                at <= sorted@.len(),
                entries_view(sorted@) == before,
                forall|j: int| 0 <= j < at ==> !name_le(entry@.name, #[trigger] before[j].name),
            decreases sorted@.len() - at,
        {
            assert(before[at as int] == sorted@[at as int]@);
            at = at + 1;
        }
        proof {
            if at < sorted@.len() {
                assert(before[at as int] == sorted@[at as int]@);
            }
            lemma_insert_position(entry@, before, at as int);
            assert(all.skip(n - 1).first() == all[n - 1]);
            assert(all.skip(n - 1).drop_first() =~= all.skip(n));
        }
        sorted.insert(at, entry);
        assert(entries_view(sorted@) =~= before.insert(at as int, entry@));
        assert(entries_view(rest@) =~= all.take(n - 1));
    }
    assert(all.skip(0) =~= all);
    sorted
}

/// Gathers the named values of `entries`, a later value replacing an earlier
/// one of the same name.
pub fn collect_fields(entries: &Vec<Entry>) -> (vars: EnvVars)
    ensures
        vars@ == spec_collect(entries_view(entries@)),
{
    let mut vars = EnvVars::new();
    let ghost all = entries_view(entries@);
    let mut i: usize = 0;
    assert(all.take(0) =~= Seq::<EntryView>::empty());
    while i < entries.len()
        invariant
            i <= entries@.len(),
            all == entries_view(entries@),
            vars@ == spec_collect(all.take(i as int)),
        decreases entries@.len() - i,
    {
        let fields = &entries[i].fields;
        let ghost pairs = pairs_view(fields@);
        let ghost base = vars@;
        let mut j: usize = 0;
        assert(pairs.take(0) =~= Seq::<Pair>::empty());
        while j < fields.len()
            invariant
                j <= fields@.len(),
                pairs == pairs_view(fields@),
                vars@ == insert_all(base, pairs.take(j as int)),
            decreases fields@.len() - j,
        {
            let name = fields[j].0.clone();
            let value = fields[j].1.clone();
            vars.insert(name, value);
            assert(pairs.take(j + 1).drop_last() =~= pairs.take(j as int));
            assert(pairs.take(j + 1).last() == (name@, value@));
            j = j + 1;
        }
        assert(pairs.take(j as int) =~= pairs);
        assert(all.take(i + 1).drop_last() =~= all.take(i as int));
        assert(all.take(i + 1).last().fields == pairs);
        i = i + 1;
    }
    assert(all.take(i as int) =~= all);
    vars
}

/// Recovers the key of the vault from the master key that the token record
/// holds and the wrapped key of the profile.
pub fn vault_key(token: &TokenResponse, data: &SyncResponse) -> (r: Result<SymmetricKey, Error>)
    ensures
        match r {
            Ok(key) => spec_vault_key(text_of(token.master_key), data.profile.key) == Ok::<
                SymmetricKeyView,
                Error,
            >(key@),
            Err(e) => spec_vault_key(text_of(token.master_key), data.profile.key) == Err::<
                SymmetricKeyView,
                Error,
            >(e),
        },
{
    let key = match &token.master_key {
        Some(v) => v,
        None => { return Err(Error::Record(Field::MasterKey)); },
    };
    let key = match decode(key.as_str().as_bytes()) {
        Some(key) => key,
        None => { return Err(Error::Encoding(Segment::Key)); },
    };
    let master_key = MasterKey { key, hash: String::new() };
    let key = match SymmetricKey::from_master_key(&master_key) {
        Ok(key) => key,
        Err(e) => { return Err(e); },
    };
    let bytes = match data.profile.key.decrypt(&key) {
        Ok(bytes) => bytes,
        Err(e) => { return Err(e); },
    };
    SymmetricKey::from_bytes(&bytes)
}

/// Looks up the secure notes whose name contains `name`, without regard to
/// case, and returns their fields as named values.
///
/// The notes are taken in ascending order of their decrypted names and each
/// note's fields in their own order, so where two fields have the same name
/// the later one decides. A note whose name fails to decrypt is left out. A
/// field of which the name or the value fails to decrypt is left out too,
/// and the other fields of its note stay: nothing, no empty text either,
/// stands in for what could not be read. The lookup itself fails only where
/// the key of the vault cannot be recovered.
pub fn get_by_name(name: &str, token: &TokenResponse, data: &SyncResponse) -> (r: Result<
    EnvVars,
    Error,
>)
    ensures
        match r {
            Ok(vars) => spec_get_by_name(name@, text_of(token.master_key), *data) == Ok::<
                Map<Seq<char>, Seq<char>>,
                Error,
            >(vars@),
            Err(e) => spec_get_by_name(name@, text_of(token.master_key), *data) == Err::<
                Map<Seq<char>, Seq<char>>,
                Error,
            >(e),
        },
{
    let sym_key = match vault_key(token, data) {
        Ok(key) => key,
        Err(e) => { return Err(e); },
    };
    let needle = to_lowercase(name);
    let found = matching_entries(&data.ciphers, &sym_key, needle.as_str());
    let found = sort_by_name(found);
    Ok(collect_fields(&found))
}

} // verus!
