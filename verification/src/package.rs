//! The entries of a troubleshooting package: each text entry is kept to its
//! most recent bytes, the package to a file count and a total size, and a
//! manifest lists what went in and what was left out.

use vstd::prelude::*;
use vstd::string::StringSliceAdditionalSpecFns;
use vstd::utf8::{decode_utf8, encode_utf8, encode_utf8_decode_utf8, encode_utf8_valid_utf8, is_char_boundary, valid_utf8};
use crate::text::{push_decimal, push_str, spec_decimal};

verus! {

/// Files a package may hold.
pub const MAX_PACKAGE_FILES: usize = 16;
/// Bytes one entry may hold.
pub const MAX_PACKAGE_ENTRY_BYTES: usize = 262_144;
/// Bytes all entries may hold together.
pub const MAX_PACKAGE_TOTAL_BYTES: usize = 2_097_152;

/// The first character boundary of `b` at or after `i`.
pub open spec fn spec_first_boundary(b: Seq<u8>, i: int) -> int
    decreases b.len() - i,
{
    if i >= b.len() {
        b.len() as int
    } else if is_char_boundary(b, i) {
        i
    } else {
        spec_first_boundary(b, i + 1)
    }
}

/// The most recent whole characters of `s` within `max_bytes` bytes of UTF-8:
/// `s` itself when it fits.
pub open spec fn spec_tail(s: Seq<char>, max_bytes: nat) -> Seq<char> {
    let b = encode_utf8(s);
    if b.len() <= max_bytes {
        s
    } else {
        decode_utf8(b.subrange(spec_first_boundary(b, b.len() - max_bytes), b.len() as int))
    }
}

proof fn lemma_first_boundary(b: Seq<u8>, i: int)
    requires
        valid_utf8(b),
        0 <= i <= b.len(),
    ensures
        i <= spec_first_boundary(b, i) <= b.len(),
        is_char_boundary(b, spec_first_boundary(b, i)),
    decreases b.len() - i,
{
    vstd::utf8::is_char_boundary_start_end_of_seq(b);
    if i < b.len() && !is_char_boundary(b, i) {
        lemma_first_boundary(b, i + 1);
    }
}

/// The most recent bytes of `value`, at most `max_bytes` of them, starting
/// at a character; and whether anything was cut.
pub fn tail_bounded(value: &str, max_bytes: usize) -> (r: (String, bool))
    ensures
        r.0@ == spec_tail(value@, max_bytes as nat),
        r.1 == (encode_utf8(value@).len() > max_bytes),
        encode_utf8(r.0@).len() <= max_bytes || !r.1,
{
    broadcast use encode_utf8_valid_utf8, encode_utf8_decode_utf8;
    let bytes = value.as_bytes();
    let len = bytes.len();
    if len <= max_bytes {
        return (String::from_str(value), false);
    }
    let ghost b = value.spec_bytes();
    let mut start = len - max_bytes;
    proof {
        lemma_first_boundary(b, start as int);
        assert(spec_first_boundary(b, start as int) == spec_first_boundary(b, (len - max_bytes) as int));
    }
    while !value.is_char_boundary(start)
        invariant
            b == value.spec_bytes(),
            valid_utf8(b),
            len == b.len(),
            len - max_bytes <= start <= len,
            spec_first_boundary(b, start as int) == spec_first_boundary(b, (len - max_bytes) as int),
            is_char_boundary(b, spec_first_boundary(b, start as int)),
            start <= spec_first_boundary(b, start as int) <= len,
        decreases len - start,
    {
        proof {
            if start as int == len {
                vstd::utf8::is_char_boundary_start_end_of_seq(b);
            }
            lemma_first_boundary(b, start + 1);
        }
        start = start + 1;
    }
    let (_, tail) = value.split_at(start);
    proof {
        assert(tail.spec_bytes() == b.subrange(start as int, len as int));
        assert(decode_utf8(encode_utf8(tail@)) == tail@);
    }
    (String::from_str(tail), true)
}

/// The byte length of a text in UTF-8.
pub open spec fn byte_len(s: Seq<char>) -> nat {
    encode_utf8(s).len()
}

fn text_bytes(s: &str) -> (n: usize)
    ensures
        n == byte_len(s@),
{
    s.as_bytes().len()
}

/// Adds an entry of already-redacted `contents` under `archive_name`: past
/// the file limit it is left out with a warning; otherwise it is kept to
/// its most recent bytes, with a warning when it was cut.
pub fn push_text_entry(
    entries: &mut Vec<(String, String)>,
    archive_name: &str,
    contents: &str,
    warnings: &mut Vec<String>,
)
    ensures
        old(entries)@.len() >= MAX_PACKAGE_FILES ==> {
            &&& final(entries)@ == old(entries)@
            &&& final(warnings)@.len() == old(warnings)@.len() + 1
            &&& final(warnings)@.last()@ == archive_name@ + ": omitted because the package file limit was reached"@
        },
        old(entries)@.len() < MAX_PACKAGE_FILES ==> {
            let cut = byte_len(contents@) > MAX_PACKAGE_ENTRY_BYTES;
            &&& final(entries)@.len() == old(entries)@.len() + 1
            &&& forall|i: int| 0 <= i < old(entries)@.len() ==> #[trigger] final(entries)@[i] == old(entries)@[i]
            &&& final(entries)@.last().0@ == archive_name@
            &&& final(entries)@.last().1@ == spec_tail(contents@, MAX_PACKAGE_ENTRY_BYTES as nat)
            &&& final(warnings)@.len() == old(warnings)@.len() + (if cut { 1int } else { 0 })
            &&& cut ==> final(warnings)@.last()@ == archive_name@ + ": truncated to the most recent 262144 bytes"@
        },
        forall|i: int| 0 <= i < old(warnings)@.len() ==> #[trigger] final(warnings)@[i] == old(warnings)@[i],
{
    if entries.len() >= MAX_PACKAGE_FILES {
        let mut w = String::new();
        push_str(&mut w, archive_name);
        push_str(&mut w, ": omitted because the package file limit was reached");
        warnings.push(w);
        return;
    }
    let (bounded, truncated) = tail_bounded(contents, MAX_PACKAGE_ENTRY_BYTES);
    if truncated {
        let mut w = String::new();
        push_str(&mut w, archive_name);
        push_str(&mut w, ": truncated to the most recent 262144 bytes");
        warnings.push(w);
    }
    entries.push((String::from_str(archive_name), bounded));
}

/// The entries and warnings after applying the total size limit to the
/// first `n` entries, and the budget left.
pub open spec fn spec_total_bound(entries: Seq<(Seq<char>, Seq<char>)>, n: int) -> (Seq<(Seq<char>, Seq<char>)>, Seq<Seq<char>>, nat)
    decreases n,
{
    if n <= 0 {
        (Seq::empty(), Seq::empty(), MAX_PACKAGE_TOTAL_BYTES as nat)
    } else {
        let (kept, warnings, remaining) = spec_total_bound(entries, n - 1);
        let (name, contents) = entries[n - 1];
        if remaining == 0 {
            (kept, warnings.push(name + ": omitted because the package size limit was reached"@), remaining)
        } else if byte_len(contents) > remaining {
            let cut = spec_tail(contents, remaining);
            (
                kept.push((name, cut)),
                warnings.push(name + ": truncated by the package size limit"@),
                if byte_len(cut) <= remaining { (remaining - byte_len(cut)) as nat } else { 0 },
            )
        } else {
            (kept.push((name, contents)), warnings, (remaining - byte_len(contents)) as nat)
        }
    }
}

/// The entries as texts.
pub open spec fn entry_views(entries: Seq<(String, String)>) -> Seq<(Seq<char>, Seq<char>)> {
    Seq::new(entries.len(), |i: int| (entries[i].0@, entries[i].1@))
}

pub open spec fn text_views(ws: Seq<String>) -> Seq<Seq<char>> {
    Seq::new(ws.len(), |i: int| ws[i]@)
}

/// Keeps the package within its total size: entries are taken in order,
/// one that does not fit is cut to its most recent bytes, and once the
/// budget is spent the rest are left out, each with a warning.
pub fn enforce_total_bound(entries: &mut Vec<(String, String)>, warnings: &mut Vec<String>)
    ensures
        entry_views(final(entries)@) == spec_total_bound(entry_views(old(entries)@), old(entries)@.len() as int).0,
        text_views(final(warnings)@) == text_views(old(warnings)@) + spec_total_bound(entry_views(old(entries)@), old(entries)@.len() as int).1,
{
    let ghost orig = entry_views(entries@);
    let ghost w0 = text_views(warnings@);
    let mut source: Vec<(String, String)> = Vec::new();
    std::mem::swap(&mut source, entries);
    let total = source.len();
    let ghost n = source@.len();
    let mut remaining: usize = MAX_PACKAGE_TOTAL_BYTES;
    let mut i: usize = 0;
    while source.len() > 0
        invariant
            entry_views(source@) == orig.subrange(i as int, n as int),
            i + source@.len() == n,
            n == orig.len(),
            n == total,
            entry_views(entries@) == spec_total_bound(orig, i as int).0,
            text_views(warnings@) == w0 + spec_total_bound(orig, i as int).1,
            remaining == spec_total_bound(orig, i as int).2,
        decreases source@.len(),
    {
        let ghost before = source@;
        proof {
            assert(entry_views(before)[0] == orig[i as int]);
        }
        let (name, contents) = source.remove(0);
        proof {
            assert(before[0] == (name, contents));
            assert(orig[i as int] == (name@, contents@));
            assert(entry_views(source@) =~= orig.subrange(i + 1, n as int)) by {
                assert forall|k: int| 0 <= k < source@.len() implies #[trigger] entry_views(source@)[k] == orig.subrange(i + 1, n as int)[k] by {
                    assert(source@[k] == before[k + 1]);
                    assert(entry_views(before)[k + 1] == orig[i + 1 + k]);
                }
            }
        }
        let ghost wv = text_views(warnings@);
        let ghost ev = entry_views(entries@);
        if remaining == 0 {
            let mut w = String::new();
            push_str(&mut w, name.as_str());
            push_str(&mut w, ": omitted because the package size limit was reached");
            warnings.push(w);
            proof {
                assert(text_views(warnings@) =~= wv.push(w@));
            }
        } else {
            let size = text_bytes(contents.as_str());
            if size > remaining {
                let (bounded, _) = tail_bounded(contents.as_str(), remaining);
                let mut w = String::new();
                push_str(&mut w, name.as_str());
                push_str(&mut w, ": truncated by the package size limit");
                warnings.push(w);
                let used = text_bytes(bounded.as_str());
                remaining = if used <= remaining { remaining - used } else { 0 };
                let ghost item = (name@, bounded@);
                entries.push((name, bounded));
                proof {
                    assert(text_views(warnings@) =~= wv.push(w@));
                    assert(entry_views(entries@) =~= ev.push(item));
                }
            } else {
                remaining = remaining - size;
                let ghost item = (name@, contents@);
                entries.push((name, contents));
                proof {
                    assert(entry_views(entries@) =~= ev.push(item));
                }
            }
        }
        i = i + 1;
    }
}

/// The manifest of a package generated at `generated_at`.
pub open spec fn spec_manifest(entries: Seq<(Seq<char>, Seq<char>)>, warnings: Seq<Seq<char>>, generated_at: Seq<char>) -> Seq<char> {
    "Tractor Beam Troubleshooting Package\ngenerated_at: "@ + generated_at + "\nfiles:\n"@ + spec_file_lines(entries, entries.len() as int)
        + "warnings:\n"@ + (if warnings.len() == 0 { "- none\n"@ } else { spec_warning_lines(warnings, warnings.len() as int) })
}

pub open spec fn spec_file_lines(entries: Seq<(Seq<char>, Seq<char>)>, n: int) -> Seq<char>
    decreases n,
{
    if n <= 0 {
        Seq::empty()
    } else {
        spec_file_lines(entries, n - 1) + "- "@ + entries[n - 1].0 + ": "@ + spec_decimal(byte_len(entries[n - 1].1)) + " bytes\n"@
    }
}

pub open spec fn spec_warning_lines(warnings: Seq<Seq<char>>, n: int) -> Seq<char>
    decreases n,
{
    if n <= 0 {
        Seq::empty()
    } else {
        spec_warning_lines(warnings, n - 1) + "- "@ + warnings[n - 1] + "\n"@
    }
}

/// Lists each entry with its size, then the warnings (or `- none`).
pub fn package_manifest(entries: &Vec<(String, String)>, warnings: &Vec<String>, generated_at: &str) -> (m: String)
    ensures
        m@ == spec_manifest(entry_views(entries@), text_views(warnings@), generated_at@),
{
    let mut m = String::new();
    push_str(&mut m, "Tractor Beam Troubleshooting Package\ngenerated_at: ");
    push_str(&mut m, generated_at);
    push_str(&mut m, "\nfiles:\n");
    let ghost start = m@;
    let mut i: usize = 0;
    while i < entries.len()
        invariant
            i <= entries@.len(),
            m@ == start + spec_file_lines(entry_views(entries@), i as int),
        decreases entries@.len() - i,
    {
        push_str(&mut m, "- ");
        push_str(&mut m, entries[i].0.as_str());
        push_str(&mut m, ": ");
        push_decimal(&mut m, text_bytes(entries[i].1.as_str()) as u128);
        push_str(&mut m, " bytes\n");
        i = i + 1;
    }
    push_str(&mut m, "warnings:\n");
    if warnings.len() == 0 {
        push_str(&mut m, "- none\n");
    } else {
        let ghost start2 = m@;
        let mut j: usize = 0;
        while j < warnings.len()
            invariant
                j <= warnings@.len(),
                m@ == start2 + spec_warning_lines(text_views(warnings@), j as int),
            decreases warnings@.len() - j,
        {
            push_str(&mut m, "- ");
            push_str(&mut m, warnings[j].as_str());
            push_str(&mut m, "\n");
            j = j + 1;
        }
    }
    m
}


/// A cut text fits its byte budget.
pub proof fn lemma_tail_fits(s: Seq<char>, max_bytes: nat)
    ensures
        byte_len(spec_tail(s, max_bytes)) <= max_bytes || byte_len(s) <= max_bytes,
        byte_len(s) > max_bytes ==> byte_len(spec_tail(s, max_bytes)) <= max_bytes,
{
    let b = encode_utf8(s);
    encode_utf8_valid_utf8(s);
    if b.len() > max_bytes {
        let start = spec_first_boundary(b, b.len() - max_bytes);
        lemma_first_boundary(b, b.len() - max_bytes);
        vstd::utf8::valid_utf8_split(b, start);
        let sub = b.subrange(start, b.len() as int);
        vstd::utf8::decode_utf8_encode_utf8(sub);
    }
}

/// The total bytes of the entries' contents.
pub open spec fn spec_total_bytes(entries: Seq<(Seq<char>, Seq<char>)>, n: int) -> nat
    decreases n,
{
    if n <= 0 { 0 } else { spec_total_bytes(entries, n - 1) + byte_len(entries[n - 1].1) }
}

proof fn lemma_total_bound_budget(entries: Seq<(Seq<char>, Seq<char>)>, n: int)
    requires
        0 <= n <= entries.len(),
    ensures
        ({
            let (kept, _, remaining) = spec_total_bound(entries, n);
            spec_total_bytes(kept, kept.len() as int) + remaining == MAX_PACKAGE_TOTAL_BYTES
        }),
    decreases n,
{
    if n > 0 {
        lemma_total_bound_budget(entries, n - 1);
        let (kept, _, remaining) = spec_total_bound(entries, n - 1);
        let (name, contents) = entries[n - 1];
        if remaining > 0 {
            if byte_len(contents) > remaining {
                lemma_tail_fits(contents, remaining);
                let cut = spec_tail(contents, remaining);
                let k2 = kept.push((name, cut));
                assert(k2.drop_last() == kept);
                assert(spec_total_bytes(k2, k2.len() as int) == spec_total_bytes(kept, kept.len() as int) + byte_len(cut)) by {
                    lemma_total_bytes_prefix(k2, kept, kept.len() as int);
                }
            } else {
                let k2 = kept.push((name, contents));
                assert(spec_total_bytes(k2, k2.len() as int) == spec_total_bytes(kept, kept.len() as int) + byte_len(contents)) by {
                    lemma_total_bytes_prefix(k2, kept, kept.len() as int);
                }
            }
        }
    }
}

proof fn lemma_total_bytes_prefix(a: Seq<(Seq<char>, Seq<char>)>, b: Seq<(Seq<char>, Seq<char>)>, n: int)
    requires
        0 <= n <= a.len(),
        n <= b.len(),
        forall|i: int| 0 <= i < n ==> a[i] == b[i],
    ensures
        spec_total_bytes(a, n) == spec_total_bytes(b, n),
    decreases n,
{
    if n > 0 {
        lemma_total_bytes_prefix(a, b, n - 1);
    }
}

/// A package never holds more than its total byte budget.
pub proof fn law_package_within_total_budget(entries: Seq<(Seq<char>, Seq<char>)>)
    ensures
        ({
            let kept = spec_total_bound(entries, entries.len() as int).0;
            spec_total_bytes(kept, kept.len() as int) <= MAX_PACKAGE_TOTAL_BYTES
        }),
{
    lemma_total_bound_budget(entries, entries.len() as int);
}

} // verus!
