//! What holds of the cipher and the text format as a whole.
//!
//! The functions of this crate each state what they return. The lemmas here
//! state what follows when several of them are used together.

use crate::crypt::spec_check_macs;
use crate::crypt::spec_decrypt_cipher_string;
use crate::crypt::spec_encrypts;
use crate::crypt::spec_expand;
use crate::crypt::spec_tag;
use crate::auth::spec_need_refresh;
use crate::auth::Clock;
use crate::clock::spec_parse_timestamp;
use crate::clock::SECOND;
use crate::config::spec_generates;
use crate::config::spec_records_key;
use crate::config::Environment;
use crate::env_vars::has_name;
use crate::env_vars::insert_all;
use crate::env_vars::Pair;
use crate::error::Error;
use crate::error::StoreError;
use crate::format::all_digits;
use crate::format::digits_value;
use crate::format::lemma_no_separator;
use crate::format::lemma_split_at_separator;
use crate::format::spec_composite;
use crate::format::spec_parse;
use crate::format::spec_scheme;
use crate::format::spec_parse_i32;
use crate::format::Fields;
use crate::format::BAR;
use crate::format::DOT;
use crate::lookup::lex_le;
use crate::lookup::name_le;
use crate::lookup::spec_collect;
use crate::lookup::spec_field;
use crate::lookup::spec_fields;
use crate::lookup::spec_insert_sorted;
use crate::lookup::spec_sort;
use crate::lookup::spec_vault_key;
use crate::lookup::EntryView;
use crate::models::spec_key_from_base64;
use crate::models::spec_parse_cipher_string;
use crate::models::spec_serialize;
use crate::models::spec_split_key;
use crate::models::spec_written;
use crate::models::CipherString;
use crate::models::CipherStringView;
use crate::models::SymmetricKeyView;
use crate::primitives::is_base64_char;
use crate::primitives::spec_base64_encode;
use crate::primitives::spec_base64_sound;
use crate::primitives::spec_decimal;
use crate::primitives::spec_digits;
use crate::primitives::spec_hmac_sha256;
use crate::records::text_of;
use crate::records::CipherField;
use crate::records::TokenResponse;
use crate::service::is_new_token;
use crate::store::spec_load_stored;
use crate::store::spec_sealed;
use vstd::multiset::Multiset;
use vstd::prelude::*;
use vstd::seq_lib::lemma_multiset_commutative;
use vstd::seq_lib::to_multiset_build;
use vstd::utf8::encode_utf8;
use vstd::utf8::encode_utf8_decode_utf8;
use vstd::utf8::encode_utf8_valid_utf8;
use vstd::utf8::is_ascii_chars;
use vstd::utf8::is_ascii_chars_encode_utf8;

verus! {

/// Decryption inverts encryption: whatever cipher string encrypting
/// `plaintext` under `key` produced, decrypting it under the same key gives
/// `plaintext` back.
pub proof fn lemma_decrypt_inverts_encrypt(
    key: SymmetricKeyView,
    plaintext: Seq<u8>,
    cs: CipherStringView,
)
    requires
        spec_encrypts(key, plaintext, cs),
    ensures
        spec_decrypt_cipher_string(key, cs) == Ok::<Seq<u8>, Error>(plaintext),
{
}

/// The same cipher string with another tag in place of its own.
pub open spec fn with_mac(cs: CipherStringView, mac: Seq<u8>) -> CipherStringView {
    CipherStringView { mac, ..cs }
}

/// A changed tag is an authentication failure: if `cs` carries the right tag
/// under `key` and `mac` is another tag that does not collide with it when
/// tagged once more, then decrypting `cs` with `mac` in place of its own tag
/// fails with `Error::Authentication`, whatever its ciphertext holds.
pub proof fn lemma_tampered_mac_is_rejected(
    key: SymmetricKeyView,
    cs: CipherStringView,
    mac: Seq<u8>,
)
    requires
        cs.mac == spec_tag(key.mac, cs.iv, cs.data),
        mac != cs.mac,
        spec_hmac_sha256(key.mac, mac) != spec_hmac_sha256(key.mac, cs.mac),
    ensures
        spec_decrypt_cipher_string(key, with_mac(cs, mac)) == Err::<Seq<u8>, Error>(
            Error::Authentication,
        ),
{
}

/// A cipher string does not open under another key: where the
/// authentication half of `other` differs from that of the key that
/// encrypted `cs`, and the tag of `cs` does not happen to pass under it as
/// well, decrypting `cs` under `other` fails with `Error::Authentication`.
pub proof fn lemma_wrong_key_is_rejected(
    key: SymmetricKeyView,
    other: SymmetricKeyView,
    plaintext: Seq<u8>,
    cs: CipherStringView,
)
    requires
        spec_encrypts(key, plaintext, cs),
        other.mac != key.mac,
        !spec_check_macs(other.mac, cs.iv, cs.data, cs.mac),
    ensures
        spec_decrypt_cipher_string(other, cs) == Err::<Seq<u8>, Error>(Error::Authentication),
{
}

/// Nothing is decrypted before the tag is verified: every outcome other than
/// `Error::Authentication`, a padding failure among them, means that the tag
/// passed the check.
pub proof fn lemma_authentication_comes_first(key: SymmetricKeyView, cs: CipherStringView)
    ensures
        spec_decrypt_cipher_string(key, cs) != Err::<Seq<u8>, Error>(Error::Authentication)
            ==> spec_check_macs(key.mac, cs.iv, cs.data, cs.mac),
        !spec_check_macs(key.mac, cs.iv, cs.data, cs.mac) ==> spec_decrypt_cipher_string(key, cs)
            == Err::<Seq<u8>, Error>(Error::Authentication),
{
}

/// Expansion is a function of the seed: two expansions of one seed agree in
/// every byte.
pub proof fn lemma_expand_is_deterministic(
    seed: Seq<u8>,
    first: Result<SymmetricKeyView, Error>,
    second: Result<SymmetricKeyView, Error>,
)
    requires
        first == spec_expand(seed),
        second == spec_expand(seed),
    ensures
        first == second,
{
}

/// Writing out a parsed cipher string reproduces the text it was parsed
/// from.
pub proof fn lemma_serialize_inverts_parse(text: Seq<char>)
    ensures
        spec_parse_cipher_string(text) matches Ok(cs) ==> spec_serialize(cs) == text,
{
}

/// Of two byte strings, one comes before the other or equals it.
pub proof fn lemma_lex_le_total(a: Seq<u8>, b: Seq<u8>)
    ensures
        lex_le(a, b) || lex_le(b, a),
    decreases a.len(),
{
    if a.len() == 0 {
        assert(a.take(0) == b.take(0));
    } else if b.len() == 0 {
        assert(b.take(0) == a.take(0));
    } else if a[0] != b[0] {
        assert(a.take(0) == b.take(0));
        assert(b.take(0) == a.take(0));
    } else {
        let x = a.drop_first();
        let y = b.drop_first();
        lemma_lex_le_total(x, y);
        if lex_le(x, y) {
            let k = choose|k: int|
                0 <= k <= x.len() && k <= y.len() && #[trigger] x.take(k) == y.take(k) && (k
                    == x.len() || (k < y.len() && x[k] < y[k]));
            assert(a.take(k + 1) =~= seq![a[0]] + x.take(k));
            assert(b.take(k + 1) =~= seq![b[0]] + y.take(k));
            assert(a.take(k + 1) == b.take(k + 1));
        } else {
            let k = choose|k: int|
                0 <= k <= y.len() && k <= x.len() && #[trigger] y.take(k) == x.take(k) && (k
                    == y.len() || (k < x.len() && y[k] < x[k]));
            assert(a.take(k + 1) =~= seq![a[0]] + x.take(k));
            assert(b.take(k + 1) =~= seq![b[0]] + y.take(k));
            assert(b.take(k + 1) == a.take(k + 1));
        }
    }
}

/// Whether each entry's name comes before the next one's or equals it.
pub open spec fn is_sorted(entries: Seq<EntryView>) -> bool {
    forall|i: int|
        0 <= i && i + 1 < entries.len() ==> name_le(
            (#[trigger] entries[i]).name,
            entries[i + 1].name,
        )
}

/// Putting an entry into sorted entries leaves them sorted, and the first
/// of them is then the new entry or the one that was first before.
pub proof fn lemma_insert_keeps_sorted(entry: EntryView, sorted: Seq<EntryView>)
    requires
        is_sorted(sorted),
    ensures
        is_sorted(spec_insert_sorted(entry, sorted)),
        spec_insert_sorted(entry, sorted).len() == sorted.len() + 1,
        spec_insert_sorted(entry, sorted)[0] == entry || (sorted.len() > 0 && spec_insert_sorted(
            entry,
            sorted,
        )[0] == sorted[0] && name_le(sorted[0].name, entry.name)),
    decreases sorted.len(),
{
    let out = spec_insert_sorted(entry, sorted);
    if sorted.len() == 0 {
    } else if name_le(entry.name, sorted.first().name) {
        assert forall|i: int| 0 <= i && i + 1 < out.len() implies name_le(
            (#[trigger] out[i]).name,
            out[i + 1].name,
        ) by {
            if i > 0 {
                assert(name_le(sorted[i - 1].name, sorted[i].name));
            }
        }
    } else {
        let rest = sorted.drop_first();
        let tail = spec_insert_sorted(entry, rest);
        assert(is_sorted(rest)) by {
            assert forall|i: int| 0 <= i && i + 1 < rest.len() implies name_le(
                (#[trigger] rest[i]).name,
                rest[i + 1].name,
            ) by {
                assert(name_le(sorted[i + 1].name, sorted[i + 2].name));
            }
        }
        lemma_insert_keeps_sorted(entry, rest);
        lemma_lex_le_total(
            vstd::utf8::encode_utf8(entry.name),
            vstd::utf8::encode_utf8(sorted[0].name),
        );
        assert(name_le(sorted[0].name, entry.name));
        assert forall|i: int| 0 <= i && i + 1 < out.len() implies name_le(
            (#[trigger] out[i]).name,
            out[i + 1].name,
        ) by {
            if i == 0 {
                if tail[0] != entry {
                    assert(tail[0] == rest[0]);
                    assert(name_le(sorted[0].name, sorted[1].name));
                }
            } else {
                assert(out[i] == tail[i - 1]);
                assert(out[i + 1] == tail[i]);
                assert(name_le(tail[i - 1].name, tail[i].name));
            }
        }
    }
}

/// Sorting gives entries in ascending order of their names.
pub proof fn lemma_sort_is_sorted(entries: Seq<EntryView>)
    ensures
        is_sorted(spec_sort(entries)),
        spec_sort(entries).len() == entries.len(),
    decreases entries.len(),
{
    if entries.len() > 0 {
        lemma_sort_is_sorted(entries.drop_first());
        lemma_insert_keeps_sorted(entries.first(), spec_sort(entries.drop_first()));
    }
}

/// Putting an entry into sorted entries adds that entry and nothing else.
pub proof fn lemma_insert_adds_one(entry: EntryView, sorted: Seq<EntryView>)
    ensures
        spec_insert_sorted(entry, sorted).to_multiset() == sorted.to_multiset().insert(entry),
    decreases sorted.len(),
{
    let single = seq![entry];
    assert(single =~= Seq::<EntryView>::empty().push(entry));
    to_multiset_build(Seq::<EntryView>::empty(), entry);
    assert(Seq::<EntryView>::empty().to_multiset() =~= Multiset::<EntryView>::empty()) by {
        Seq::<EntryView>::empty().to_multiset_ensures();
        assert(Seq::<EntryView>::empty().to_multiset().len() == 0);
    }
    if sorted.len() == 0 {
        assert(sorted =~= Seq::<EntryView>::empty());
        assert(spec_insert_sorted(entry, sorted).to_multiset() =~= sorted.to_multiset().insert(
            entry,
        ));
    } else if name_le(entry.name, sorted.first().name) {
        lemma_multiset_commutative(single, sorted);
        assert(spec_insert_sorted(entry, sorted).to_multiset() =~= sorted.to_multiset().insert(
            entry,
        ));
    } else {
        let head = seq![sorted.first()];
        let rest = sorted.drop_first();
        lemma_insert_adds_one(entry, rest);
        lemma_multiset_commutative(head, spec_insert_sorted(entry, rest));
        lemma_multiset_commutative(head, rest);
        assert(sorted =~= head + rest);
        assert(spec_insert_sorted(entry, sorted).to_multiset() =~= sorted.to_multiset().insert(
            entry,
        ));
    }
}

/// Sorting rearranges: every entry occurs after it as often as before.
pub proof fn lemma_sort_is_permutation(entries: Seq<EntryView>)
    ensures
        spec_sort(entries).to_multiset() == entries.to_multiset(),
    decreases entries.len(),
{
    if entries.len() > 0 {
        let head = seq![entries.first()];
        let rest = entries.drop_first();
        lemma_sort_is_permutation(rest);
        lemma_insert_adds_one(entries.first(), spec_sort(rest));
        assert(head =~= Seq::<EntryView>::empty().push(entries.first()));
        to_multiset_build(Seq::<EntryView>::empty(), entries.first());
        assert(Seq::<EntryView>::empty().to_multiset() =~= Multiset::<EntryView>::empty()) by {
            Seq::<EntryView>::empty().to_multiset_ensures();
            assert(Seq::<EntryView>::empty().to_multiset().len() == 0);
        }
        lemma_multiset_commutative(head, rest);
        assert(entries =~= head + rest);
        assert(spec_sort(entries).to_multiset() =~= entries.to_multiset());
    } else {
        assert(spec_sort(entries) =~= entries);
    }
}

/// A field that fails to decrypt contributes nothing and takes nothing
/// away: the fields that a note gives are those it would give without it.
pub proof fn lemma_unreadable_field_is_left_out(
    fields: Seq<CipherField>,
    key: SymmetricKeyView,
    i: int,
)
    requires
        0 <= i < fields.len(),
        spec_field(fields[i], key) is None,
    ensures
        spec_fields(fields, key) == spec_fields(fields.remove(i), key),
    decreases fields.len(),
{
    if i == fields.len() - 1 {
        assert(fields.remove(i) =~= fields.drop_last());
    } else {
        lemma_unreadable_field_is_left_out(fields.drop_last(), key, i);
        assert(fields.remove(i).drop_last() =~= fields.drop_last().remove(i));
        assert(fields.remove(i).last() == fields.last());
    }
}

/// Where every field of a note decrypts, the note gives them all, each in
/// its place.
pub proof fn lemma_readable_fields_stay(fields: Seq<CipherField>, key: SymmetricKeyView)
    requires
        forall|i: int| 0 <= i < fields.len() ==> spec_field(#[trigger] fields[i], key) is Some,
    ensures
        spec_fields(fields, key).len() == fields.len(),
        forall|i: int|
            0 <= i < fields.len() ==> Some(#[trigger] spec_fields(fields, key)[i]) == spec_field(
                fields[i],
                key,
            ),
    decreases fields.len(),
{
    if fields.len() > 0 {
        let rest = fields.drop_last();
        assert forall|i: int| 0 <= i < rest.len() implies spec_field(
            #[trigger] rest[i],
            key,
        ) is Some by {
            assert(rest[i] == fields[i]);
        }
        lemma_readable_fields_stay(rest, key);
        assert(spec_field(fields[fields.len() - 1], key) is Some);
        assert forall|i: int| 0 <= i < fields.len() implies Some(
            #[trigger] spec_fields(fields, key)[i],
        ) == spec_field(fields[i], key) by {
            if i < rest.len() {
                assert(spec_fields(fields, key)[i] == spec_fields(rest, key)[i]);
                assert(rest[i] == fields[i]);
            }
        }
    }
}

/// Inserting pairs leaves a name alone that is not among them.
pub proof fn lemma_insert_all_other(map: Map<Seq<char>, Seq<char>>, pairs: Seq<Pair>, name: Seq<char>)
    requires
        !has_name(pairs, name),
    ensures
        insert_all(map, pairs).contains_key(name) == map.contains_key(name),
        map.contains_key(name) ==> insert_all(map, pairs)[name] == map[name],
    decreases pairs.len(),
{
    if pairs.len() > 0 {
        let rest = pairs.drop_last();
        assert(pairs[pairs.len() - 1].0 != name);
        assert(!has_name(rest, name)) by {
            if has_name(rest, name) {
                let i = choose|i: int| 0 <= i < rest.len() && #[trigger] rest[i].0 == name;
                assert(pairs[i].0 == name);
            }
        }
        lemma_insert_all_other(map, rest, name);
    }
}

/// Among pairs that are inserted one after the other, the last one of a
/// name decides its value.
pub proof fn lemma_insert_all_last(map: Map<Seq<char>, Seq<char>>, pairs: Seq<Pair>, i: int)
    requires
        0 <= i < pairs.len(),
        forall|j: int| i < j < pairs.len() ==> (#[trigger] pairs[j]).0 != pairs[i].0,
    ensures
        insert_all(map, pairs).contains_key(pairs[i].0),
        insert_all(map, pairs)[pairs[i].0] == pairs[i].1,
    decreases pairs.len(),
{
    if i < pairs.len() - 1 {
        let rest = pairs.drop_last();
        assert(pairs[pairs.len() - 1].0 != pairs[i].0);
        assert(rest[i] == pairs[i]);
        assert forall|j: int| i < j < rest.len() implies (#[trigger] rest[j]).0 != rest[i].0 by {
            assert(rest[j] == pairs[j]);
        }
        lemma_insert_all_last(map, rest, i);
    }
}

/// The later entry decides: where a field is the last of its name in its
/// entry, and no entry behind that one has a field of the name, the lookup
/// gives the name the value of that field.
pub proof fn lemma_later_entry_decides(entries: Seq<EntryView>, e: int, i: int)
    requires
        0 <= e < entries.len(),
        0 <= i < entries[e].fields.len(),
        forall|j: int|
            i < j < entries[e].fields.len() ==> (#[trigger] entries[e].fields[j]).0
                != entries[e].fields[i].0,
        forall|later: int|
            e < later < entries.len() ==> !has_name(
                (#[trigger] entries[later]).fields,
                entries[e].fields[i].0,
            ),
    ensures
        spec_collect(entries).contains_key(entries[e].fields[i].0),
        spec_collect(entries)[entries[e].fields[i].0] == entries[e].fields[i].1,
    decreases entries.len(),
{
    let name = entries[e].fields[i].0;
    let rest = entries.drop_last();
    if e == entries.len() - 1 {
        lemma_insert_all_last(spec_collect(rest), entries[e].fields, i);
    } else {
        assert(rest[e] == entries[e]);
        assert forall|later: int| e < later < rest.len() implies !has_name(
            (#[trigger] rest[later]).fields,
            rest[e].fields[i].0,
        ) by {
            assert(rest[later] == entries[later]);
        }
        lemma_later_entry_decides(rest, e, i);
        assert(!has_name(entries[entries.len() - 1].fields, name));
        lemma_insert_all_other(spec_collect(rest), entries.last().fields, name);
    }
}

/// The bytes of ASCII text put together are the bytes of its parts put
/// together.
pub proof fn lemma_ascii_bytes_concat(x: Seq<char>, y: Seq<char>)
    requires
        is_ascii_chars(x),
        is_ascii_chars(y),
    ensures
        is_ascii_chars(x + y),
        encode_utf8(x + y) == encode_utf8(x) + encode_utf8(y),
{
    let whole = x + y;
    assert(is_ascii_chars(whole)) by {
        assert forall|i: int| 0 <= i < whole.len() implies '\0' <= #[trigger] whole[i]
            <= '\u{7f}' by {
            if i < x.len() {
                assert(whole[i] == x[i]);
            } else {
                assert(whole[i] == y[i - x.len()]);
            }
        }
    }
    is_ascii_chars_encode_utf8(x);
    is_ascii_chars_encode_utf8(y);
    is_ascii_chars_encode_utf8(whole);
    let left = encode_utf8(whole);
    let right = encode_utf8(x) + encode_utf8(y);
    assert(left.len() == right.len());
    assert forall|i: int| 0 <= i < left.len() implies left[i] == right[i] by {
        assert(whole[i] as u8 == left[i]);
        if i < x.len() {
            assert(whole[i] == x[i]);
            assert(x[i] as u8 == encode_utf8(x)[i]);
        } else {
            assert(whole[i] == y[i - x.len()]);
            assert(y[i - x.len()] as u8 == encode_utf8(y)[i - x.len()]);
        }
    }
    assert(left =~= right);
}

/// Base64 text is ASCII, and its bytes hold neither `.` nor `|`.
pub proof fn lemma_base64_holds_no_separator(bytes: Seq<u8>)
    requires
        spec_base64_sound(bytes),
    ensures
        is_ascii_chars(spec_base64_encode(bytes)),
        forall|i: int|
            0 <= i < encode_utf8(spec_base64_encode(bytes)).len() ==> encode_utf8(
                spec_base64_encode(bytes),
            )[i] != DOT && encode_utf8(spec_base64_encode(bytes))[i] != BAR,
{
    let text = spec_base64_encode(bytes);
    assert(is_ascii_chars(text)) by {
        assert forall|i: int| 0 <= i < text.len() implies '\0' <= #[trigger] text[i]
            <= '\u{7f}' by {
            assert(is_base64_char(text[i]));
        }
    }
    is_ascii_chars_encode_utf8(text);
    assert forall|i: int| 0 <= i < encode_utf8(text).len() implies encode_utf8(text)[i] != DOT
        && encode_utf8(text)[i] != BAR by {
        assert(is_base64_char(text[i]));
        assert(text[i] as u8 == encode_utf8(text)[i]);
    }
}

/// The bytes of the digits of a number are decimal digits that denote the
/// number.
pub proof fn lemma_digits_denote(n: nat)
    ensures
        is_ascii_chars(spec_digits(n)),
        all_digits(encode_utf8(spec_digits(n))),
        digits_value(encode_utf8(spec_digits(n))) == n,
        n > 0 ==> encode_utf8(spec_digits(n)).len() > 0,
    decreases n,
{
    if n == 0 {
        assert(encode_utf8(spec_digits(n)) =~= Seq::<u8>::empty());
    } else {
        let rest = spec_digits(n / 10);
        let digit = ((n % 10) as u8 + 0x30u8) as char;
        let last = seq![digit];
        lemma_digits_denote(n / 10);
        assert(spec_digits(n) =~= rest + last);
        assert(is_ascii_chars(last));
        lemma_ascii_bytes_concat(rest, last);
        is_ascii_chars_encode_utf8(last);
        let byte = (n % 10 + 0x30) as u8;
        assert(encode_utf8(last) =~= seq![byte]) by {
            assert(encode_utf8(last)[0] == last[0] as u8);
        }
        let bytes = encode_utf8(spec_digits(n));
        assert(bytes =~= encode_utf8(rest).push(byte));
        assert(bytes.drop_last() =~= encode_utf8(rest));
        assert(all_digits(bytes)) by {
            assert forall|i: int| 0 <= i < bytes.len() implies crate::format::is_digit(
                #[trigger] bytes[i],
            ) by {
                if i < bytes.len() - 1 {
                    assert(bytes[i] == encode_utf8(rest)[i]);
                }
            }
        }
    }
}

/// Reading inverts writing a number: the decimal text of a 32-bit integer
/// parses to that integer, and it is ASCII text that holds no `.`.
pub proof fn lemma_decimal_parses(n: int)
    requires
        -0x8000_0000 <= n <= 0x7fff_ffff,
    ensures
        is_ascii_chars(spec_decimal(n)),
        spec_parse_i32(encode_utf8(spec_decimal(n))) == Some(n),
        forall|i: int|
            0 <= i < encode_utf8(spec_decimal(n)).len() ==> encode_utf8(spec_decimal(n))[i] != DOT,
{
    let text = spec_decimal(n);
    if n == 0 {
        assert(is_ascii_chars(text));
        is_ascii_chars_encode_utf8(text);
        let bytes = encode_utf8(text);
        assert(bytes =~= seq![0x30u8]) by {
            assert(bytes[0] == text[0] as u8);
        }
        assert(bytes.skip(0) =~= bytes);
        assert(bytes.drop_last() =~= Seq::<u8>::empty());
        reveal_with_fuel(digits_value, 3);
        assert(all_digits(bytes));
    } else if n < 0 {
        let sign = seq!['-'];
        let digits = spec_digits((-n) as nat);
        lemma_digits_denote((-n) as nat);
        assert(is_ascii_chars(sign));
        lemma_ascii_bytes_concat(sign, digits);
        is_ascii_chars_encode_utf8(sign);
        assert(encode_utf8(sign) =~= seq![0x2du8]) by {
            assert(encode_utf8(sign)[0] == sign[0] as u8);
        }
        let bytes = encode_utf8(text);
        assert(bytes =~= seq![0x2du8] + encode_utf8(digits));
        assert(bytes.skip(1) =~= encode_utf8(digits));
        assert forall|i: int| 0 <= i < bytes.len() implies bytes[i] != DOT by {
            if i > 0 {
                assert(crate::format::is_digit(encode_utf8(digits)[i - 1]));
            }
        }
    } else {
        lemma_digits_denote(n as nat);
        let bytes = encode_utf8(text);
        assert(crate::format::is_digit(bytes[0]));
        assert(bytes.skip(0) =~= bytes);
        assert forall|i: int| 0 <= i < bytes.len() implies bytes[i] != DOT by {
            assert(crate::format::is_digit(bytes[i]));
        }
    }
}

/// Parsing inverts writing: the canonical text of a cipher string that was
/// not parsed from text parses to the same fields.
pub proof fn lemma_parse_inverts_serialize(cs: CipherStringView)
    requires
        cs.raw is None,
        -0x8000_0000 <= cs.enc_type <= 0x7fff_ffff,
        spec_written(cs),
    ensures
        spec_parse_cipher_string(spec_serialize(cs)) == Ok::<CipherStringView, Error>(
            CipherStringView { raw: Some(spec_serialize(cs)), ..cs },
        ),
{
    let number = spec_decimal(cs.enc_type);
    let iv = spec_base64_encode(cs.iv);
    let data = spec_base64_encode(cs.data);
    let mac = spec_base64_encode(cs.mac);
    let dot = seq!['.'];
    let bar = seq!['|'];
    lemma_decimal_parses(cs.enc_type);
    lemma_base64_holds_no_separator(cs.iv);
    lemma_base64_holds_no_separator(cs.data);
    lemma_base64_holds_no_separator(cs.mac);
    assert(is_ascii_chars(dot));
    assert(is_ascii_chars(bar));
    // The bytes of the text, piece by piece.
    lemma_ascii_bytes_concat(number, dot);
    lemma_ascii_bytes_concat(number + dot, iv);
    lemma_ascii_bytes_concat(number + dot + iv, bar);
    lemma_ascii_bytes_concat(number + dot + iv + bar, data);
    lemma_ascii_bytes_concat(number + dot + iv + bar + data, bar);
    lemma_ascii_bytes_concat(number + dot + iv + bar + data + bar, mac);
    is_ascii_chars_encode_utf8(dot);
    is_ascii_chars_encode_utf8(bar);
    let n = encode_utf8(number);
    let a = encode_utf8(iv);
    let b = encode_utf8(data);
    let m = encode_utf8(mac);
    assert(encode_utf8(dot) =~= seq![DOT]) by {
        assert(encode_utf8(dot)[0] == dot[0] as u8);
    }
    assert(encode_utf8(bar) =~= seq![BAR]) by {
        assert(encode_utf8(bar)[0] == bar[0] as u8);
    }
    let text = encode_utf8(spec_serialize(cs));
    let composite = a + seq![BAR] + b + seq![BAR] + m;
    assert(text =~= n + seq![DOT] + composite);
    // The scheme number.
    lemma_split_at_separator(n, DOT, composite);
    // The segments.
    lemma_no_separator(composite, DOT);
    let tail = b + seq![BAR] + m;
    assert(composite =~= a + seq![BAR] + tail);
    lemma_split_at_separator(a, BAR, tail);
    lemma_split_at_separator(b, BAR, m);
    lemma_no_separator(m, BAR);
    assert(spec_parse(text) == Ok::<Fields, Error>(
        Fields { enc_type: cs.enc_type, iv: cs.iv, data: cs.data, mac: cs.mac },
    ));
}

/// Text that holds no `.` is of scheme 2, and all of it holds the
/// segments.
pub proof fn lemma_text_without_scheme(text: Seq<u8>)
    requires
        forall|i: int| 0 <= i < text.len() ==> text[i] != DOT,
    ensures
        spec_scheme(text) == 2,
        spec_composite(text) == text,
{
    lemma_no_separator(text, DOT);
}

/// The segments of a cipher string, written without a scheme number in
/// front, parse to the same fields with scheme 2.
pub proof fn lemma_parse_accepts_unversioned(cs: CipherStringView)
    requires
        spec_written(cs),
    ensures
        spec_parse(
            encode_utf8(
                spec_base64_encode(cs.iv) + seq!['|'] + spec_base64_encode(cs.data) + seq!['|']
                    + spec_base64_encode(cs.mac),
            ),
        ) == Ok::<Fields, Error>(
            Fields { enc_type: 2, iv: cs.iv, data: cs.data, mac: cs.mac },
        ),
{
    let iv = spec_base64_encode(cs.iv);
    let data = spec_base64_encode(cs.data);
    let mac = spec_base64_encode(cs.mac);
    let bar = seq!['|'];
    lemma_base64_holds_no_separator(cs.iv);
    lemma_base64_holds_no_separator(cs.data);
    lemma_base64_holds_no_separator(cs.mac);
    assert(is_ascii_chars(bar));
    lemma_ascii_bytes_concat(iv, bar);
    lemma_ascii_bytes_concat(iv + bar, data);
    lemma_ascii_bytes_concat(iv + bar + data, bar);
    lemma_ascii_bytes_concat(iv + bar + data + bar, mac);
    is_ascii_chars_encode_utf8(bar);
    let a = encode_utf8(iv);
    let b = encode_utf8(data);
    let m = encode_utf8(mac);
    assert(encode_utf8(bar) =~= seq![BAR]) by {
        assert(encode_utf8(bar)[0] == bar[0] as u8);
    }
    let text = encode_utf8(iv + bar + data + bar + mac);
    let tail = b + seq![BAR] + m;
    assert(text =~= a + seq![BAR] + tail);
    assert forall|i: int| 0 <= i < text.len() implies text[i] != DOT by {
        if i < a.len() {
            assert(text[i] == a[i]);
        } else if i == a.len() {
        } else if i < a.len() + 1 + b.len() {
            assert(text[i] == b[i - a.len() - 1]);
        } else if i == a.len() + 1 + b.len() {
        } else {
            assert(text[i] == m[i - a.len() - b.len() - 2]);
        }
    }
    lemma_text_without_scheme(text);
    lemma_split_at_separator(a, BAR, tail);
    lemma_split_at_separator(b, BAR, m);
    lemma_no_separator(m, BAR);
}

/// Loading inverts storing: whatever contents sealing a value under a
/// session key produced, opening them under the same key gives that value.
pub proof fn lemma_load_inverts_store(key: SymmetricKeyView, value: Seq<char>, contents: Seq<char>)
    requires
        spec_sealed(key, value, contents),
    ensures
        spec_load_stored(key, contents) == Ok::<Seq<char>, StoreError>(value),
{
    let cs = choose|cs: CipherStringView| #[trigger]
        spec_encrypts(key, encode_utf8(value), cs) && spec_written(cs) && contents
            == spec_serialize(cs);
    lemma_parse_inverts_serialize(cs);
    let parsed = CipherStringView { raw: Some(contents), ..cs };
    assert(spec_decrypt_cipher_string(key, parsed) == spec_decrypt_cipher_string(key, cs));
    lemma_decrypt_inverts_encrypt(key, encode_utf8(value), cs);
    encode_utf8_valid_utf8(value);
    encode_utf8_decode_utf8(value);
}

/// A key pair survives being written as text: reading the text of a key
/// pair whose halves are 32 bytes each gives the same key pair.
pub proof fn lemma_key_text_round_trip(key: SymmetricKeyView)
    requires
        key.wf(),
        spec_base64_sound(key.key + key.mac),
    ensures
        spec_key_from_base64(spec_base64_encode(key.key + key.mac)) == Ok::<
            SymmetricKeyView,
            Error,
        >(key),
{
    let bytes = key.key + key.mac;
    assert(bytes.subrange(0, 32) =~= key.key);
    assert(bytes.subrange(32, 64) =~= key.mac);
}

/// A token record remembers the master key it was made with: the key of
/// the vault is recovered by expanding that very master key and decrypting
/// the wrapped key of the profile under the result.
pub proof fn lemma_token_keeps_master_key(
    token: TokenResponse,
    res: TokenResponse,
    master_key: Seq<u8>,
    wrapped: CipherString,
)
    requires
        is_new_token(token, res, master_key),
    ensures
        spec_vault_key(text_of(token.master_key), wrapped) == match spec_expand(master_key) {
            Err(e) => Err::<SymmetricKeyView, Error>(e),
            Ok(outer) => match spec_decrypt_cipher_string(outer, wrapped@) {
                Err(e) => Err(e),
                Ok(bytes) => if bytes.len() < 64 {
                    Err(Error::KeyDerivation)
                } else {
                    Ok(spec_split_key(bytes))
                },
            },
        },
{
}

/// A generated session key is the session key from then on: once it is
/// recorded in the environment, no further key is generated, whether a
/// reset is asked for or not, and reading the environment gives the
/// recorded key.
pub proof fn lemma_recorded_key_is_read_back(
    after: Environment,
    before: Environment,
    key: SymmetricKeyView,
    reset_session: bool,
)
    requires
        key.wf(),
        spec_records_key(after, before, key),
    ensures
        !spec_generates(after, reset_session),
        spec_key_from_base64(after.session_key.unwrap()@) == Ok::<SymmetricKeyView, Error>(key),
{
    lemma_key_text_round_trip(key);
}

/// A record that was just stamped can be judged, and it is fresh unless it
/// has no time to live: where the text of a clock reading reads back as the
/// point in time of that reading, a record that is stamped with the text
/// and has a lifetime is stale at that very reading exactly when the
/// lifetime is zero.
pub proof fn lemma_stamped_record_is_judged(token: TokenResponse, clock: Clock, lifetime: u32)
    requires
        text_of(token.last_saved) == Some(clock.text@),
        token.expires_in == Some(lifetime),
        spec_parse_timestamp(clock.text@) == Some((clock.now.secs, clock.now.nanos)),
        clock.now.nanos < SECOND,
    ensures
        spec_need_refresh(text_of(token.last_saved), token.expires_in, clock.now) == Ok::<
            bool,
            Error,
        >(lifetime == 0),
{
}

} // verus!
