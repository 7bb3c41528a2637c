//! Building the combined text: one header per file, the file's content or a
//! skip marker under it, and the decoded separator between files.

use crate::binary::{is_binary, is_binary_spec, lemma_null_byte_is_binary};
use crate::content::{clean_content, cleaned};
use crate::paths::{basename_for, display_path, header_basename, relpath_for};
use crate::text::{
    ascii_bytes, byte_disjoint, count_occurrences, count_range, dec_of, lemma_count_agree,
    lemma_count_split, lemma_count_zero, lit_bytes, occurs_at, replace_all, replace_spec,
    to_decimal, unescape, unescape_spec,
};
use vstd::prelude::*;
use vstd::string::StrSliceExecFns;
use vstd::utf8::encode_utf8;

verus! {

/// The resolved options that shape the output text.
pub struct RunConfig {
    /// Header template; `${index}`, `${basename}` and `${relpath}` are
    /// substituted.
    pub header_format: Vec<u8>,
    /// Separator between files, before escape decoding.
    pub separator: Vec<u8>,
    /// Size cutoff per file, in KiB.
    pub max_kb: u64,
    /// Whether binary-looking files are skipped.
    pub skip_binary: bool,
}

/// What is known of one file's content when the text is assembled.
pub enum Payload {
    /// The file was over the size cutoff and was never read.
    TooLarge,
    /// The file's raw bytes.
    Data(Vec<u8>),
}

/// One expanded file, ready for assembly.
pub struct FileEntry {
    /// The file's final path component as header text.
    pub basename: Vec<u8>,
    /// The file's display path as header text.
    pub relpath: Vec<u8>,
    /// The file's content, or the fact that it was too large.
    pub payload: Payload,
}

/// The assembled output text with the two counters.
pub struct Assembly {
    /// The combined text.
    pub text: Vec<u8>,
    /// How many files contributed their content.
    pub processed: usize,
    /// How many files were replaced by a skip marker.
    pub skipped: usize,
}

/// A single newline byte.
pub open spec fn newline() -> Seq<u8> {
    seq![10u8]
}

/// The marker standing in for a file over the size cutoff.
pub open spec fn marker_too_large() -> Seq<u8> {
    ascii_bytes("<skipped: too large>"@)
}

/// The marker standing in for a binary-looking file.
pub open spec fn marker_binary() -> Seq<u8> {
    ascii_bytes("<skipped: binary>"@)
}

/// The header template with `${index}`, `${basename}` and `${relpath}`
/// substituted, in that order, every occurrence of each.
pub open spec fn rendered_header(tmpl: Seq<u8>, index: nat, base: Seq<u8>, rel: Seq<u8>) -> Seq<
    u8,
> {
    replace_spec(
        replace_spec(
            replace_spec(tmpl, ascii_bytes("${index}"@), dec_of(index)),
            ascii_bytes("${basename}"@),
            base,
        ),
        ascii_bytes("${relpath}"@),
        rel,
    )
}

/// Whether this entry is counted as skipped rather than processed.
pub open spec fn entry_skipped(e: FileEntry, skip_binary: bool) -> bool {
    match e.payload {
        Payload::TooLarge => true,
        Payload::Data(b) => skip_binary && is_binary_spec(b@),
    }
}

/// The bytes under an entry's header: a skip marker or the cleaned content,
/// each followed by one newline.
pub open spec fn body_bytes(e: FileEntry, skip_binary: bool) -> Seq<u8> {
    match e.payload {
        Payload::TooLarge => marker_too_large() + newline(),
        Payload::Data(b) => if skip_binary && is_binary_spec(b@) {
            marker_binary() + newline()
        } else {
            cleaned(b@) + newline()
        },
    }
}

/// One file's whole contribution: its header, a newline, and its body.
pub open spec fn block_bytes(cfg: RunConfig, e: FileEntry, index: nat) -> Seq<u8> {
    rendered_header(cfg.header_format@, index, e.basename@, e.relpath@) + newline() + body_bytes(
        e,
        cfg.skip_binary,
    )
}

/// The block of entry `j` followed by the separator, except after the last
/// entry.
pub open spec fn piece_bytes(entries: Seq<FileEntry>, cfg: RunConfig, j: int) -> Seq<u8> {
    block_bytes(cfg, entries[j], (j + 1) as nat) + if j + 1 == entries.len() {
        Seq::<u8>::empty()
    } else {
        unescape_spec(cfg.separator@)
    }
}

/// The text assembled from the first `k` entries.
pub open spec fn assembled_upto(entries: Seq<FileEntry>, cfg: RunConfig, k: int) -> Seq<u8>
    decreases k,
{
    if k <= 0 {
        Seq::<u8>::empty()
    } else {
        assembled_upto(entries, cfg, k - 1) + piece_bytes(entries, cfg, k - 1)
    }
}

/// The whole assembled text.
pub open spec fn assembled_bytes(entries: Seq<FileEntry>, cfg: RunConfig) -> Seq<u8> {
    assembled_upto(entries, cfg, entries.len() as int)
}

/// How many of the first `k` entries are skipped.
pub open spec fn skipped_upto(entries: Seq<FileEntry>, skip_binary: bool, k: int) -> nat
    decreases k,
{
    if k <= 0 {
        0
    } else {
        skipped_upto(entries, skip_binary, k - 1) + if entry_skipped(
            entries[k - 1],
            skip_binary,
        ) {
            1nat
        } else {
            0nat
        }
    }
}

/// The per-file blocks, in file order.
pub open spec fn blocks_of(entries: Seq<FileEntry>, cfg: RunConfig) -> Seq<Seq<u8>> {
    Seq::new(entries.len(), |j: int| block_bytes(cfg, entries[j], (j + 1) as nat))
}

/// `parts` concatenated with `sep` between consecutive parts.
pub open spec fn joined_bytes(parts: Seq<Seq<u8>>, sep: Seq<u8>) -> Seq<u8>
    decreases parts.len(),
{
    if parts.len() == 0 {
        Seq::<u8>::empty()
    } else if parts.len() == 1 {
        parts[0]
    } else {
        joined_bytes(parts.drop_last(), sep) + sep + parts.last()
    }
}

proof fn lemma_upto_is_joined(entries: Seq<FileEntry>, cfg: RunConfig, k: int)
    requires
        1 <= k <= entries.len(),
    ensures
        k < entries.len() ==> assembled_upto(entries, cfg, k) == joined_bytes(
            blocks_of(entries, cfg).take(k),
            unescape_spec(cfg.separator@),
        ) + unescape_spec(cfg.separator@),
        k == entries.len() ==> assembled_upto(entries, cfg, k) == joined_bytes(
            blocks_of(entries, cfg).take(k),
            unescape_spec(cfg.separator@),
        ),
    decreases k,
{
    let sep = unescape_spec(cfg.separator@);
    let blocks = blocks_of(entries, cfg);
    if k == 1 {
        assert(assembled_upto(entries, cfg, 0) == Seq::<u8>::empty());
        assert(assembled_upto(entries, cfg, 1) =~= piece_bytes(entries, cfg, 0));
        assert(blocks.take(1)[0] == block_bytes(cfg, entries[0], 1));
        if k < entries.len() {
            assert(piece_bytes(entries, cfg, 0) =~= blocks.take(1)[0] + sep);
        } else {
            assert(piece_bytes(entries, cfg, 0) =~= blocks.take(1)[0]);
        }
    } else {
        lemma_upto_is_joined(entries, cfg, k - 1);
        assert(blocks.take(k).drop_last() =~= blocks.take(k - 1));
        assert(blocks.take(k).last() == block_bytes(cfg, entries[k - 1], k as nat));
        assert(joined_bytes(blocks.take(k), sep) == joined_bytes(blocks.take(k - 1), sep) + sep
            + block_bytes(cfg, entries[k - 1], k as nat));
        if k < entries.len() {
            assert(assembled_upto(entries, cfg, k) =~= joined_bytes(blocks.take(k), sep) + sep);
        } else {
            assert(assembled_upto(entries, cfg, k) =~= joined_bytes(blocks.take(k), sep));
        }
    }
}

/// For `N` expanded files the output is exactly the `N` per-file blocks
/// joined by `N - 1` copies of the decoded separator, and each block begins
/// with that file's rendered header: `N` headers, one per file, with the
/// separator inserted between consecutive files only.
pub proof fn lemma_blocks_and_separators(entries: Seq<FileEntry>, cfg: RunConfig)
    ensures
        blocks_of(entries, cfg).len() == entries.len(),
        assembled_bytes(entries, cfg) == joined_bytes(
            blocks_of(entries, cfg),
            unescape_spec(cfg.separator@),
        ),
        forall|j: int|
            0 <= j < entries.len() ==> blocks_of(entries, cfg)[j] == rendered_header(
                cfg.header_format@,
                (j + 1) as nat,
                entries[j].basename@,
                entries[j].relpath@,
            ) + newline() + body_bytes(entries[j], cfg.skip_binary),
{
    if entries.len() == 0 {
        assert(assembled_bytes(entries, cfg) =~= Seq::<u8>::empty());
    } else {
        lemma_upto_is_joined(entries, cfg, entries.len() as int);
        assert(blocks_of(entries, cfg).take(entries.len() as int) =~= blocks_of(entries, cfg));
    }
}

proof fn lemma_join_sep_count(parts: Seq<Seq<u8>>, sep: Seq<u8>, k: int)
    requires
        sep.len() > 0,
        1 <= k <= parts.len(),
        forall|j: int| 0 <= j < parts.len() ==> parts[j].len() > 0,
        forall|j: int| 0 <= j < parts.len() ==> byte_disjoint(parts[j], sep),
    ensures
        joined_bytes(parts.take(k), sep).len() > 0,
        joined_bytes(parts.take(k), sep).last() == parts[k - 1].last(),
        count_occurrences(joined_bytes(parts.take(k), sep), sep) == k - 1,
    decreases k,
{
    let m = sep.len() as int;
    if k == 1 {
        assert(joined_bytes(parts.take(1), sep) == parts.take(1)[0]);
        let j1 = joined_bytes(parts.take(1), sep);
        assert(j1 == parts[0]);
        assert forall|i: int| 0 <= i < j1.len() + 1 implies !occurs_at(j1, sep, i) by {
            if occurs_at(j1, sep, i) {
                assert(j1.subrange(i, i + m)[0] == j1[i]);
                assert(j1[i] == sep[0]);
                assert(parts[0][i] != sep[0]);
            }
        }
        lemma_count_zero(j1, sep, 0, j1.len() as int + 1);
    } else {
        lemma_join_sep_count(parts, sep, k - 1);
        let jp = joined_bytes(parts.take(k - 1), sep);
        let b = parts[k - 1];
        let j = joined_bytes(parts.take(k), sep);
        assert(parts.take(k).drop_last() =~= parts.take(k - 1));
        assert(parts.take(k).last() == b);
        assert(j == jp + sep + b);
        let lp = jp.len() as int;
        let lb = b.len() as int;
        let l = j.len() as int;
        assert(l == lp + m + lb);
        // The last byte of the previous join is a block byte.
        assert(jp.last() == parts[k - 2].last());
        assert(j[l - 1] == b[lb - 1]);
        // Occurrences below the junction are those of the previous join.
        assert forall|i: int| 0 <= i < lp implies occurs_at(j, sep, i) == occurs_at(
            jp,
            sep,
            i,
        ) by {
            if i + m <= lp {
                assert(j.subrange(i, i + m) =~= jp.subrange(i, i + m));
            } else {
                assert(!occurs_at(jp, sep, i));
                if occurs_at(j, sep, i) {
                    let d = lp - 1 - i;
                    assert(0 <= d < m);
                    assert(j.subrange(i, i + m)[d] == j[lp - 1]);
                    assert(j[lp - 1] == jp[lp - 1]);
                    assert(parts[k - 2][parts[k - 2].len() - 1] != sep[d]);
                }
            }
        }
        lemma_count_agree(j, jp, sep, 0, lp);
        // The previous join has no occurrence at its own end position.
        assert(!occurs_at(jp, sep, lp));
        // One occurrence exactly at the junction.
        assert(j.subrange(lp, lp + m) =~= sep);
        assert(occurs_at(j, sep, lp));
        // None after it: every later window reaches a byte of the last block.
        assert forall|i: int| lp + 1 <= i < l + 1 implies !occurs_at(j, sep, i) by {
            if occurs_at(j, sep, i) {
                if i < lp + m {
                    let d = lp + m - i;
                    assert(0 <= d < m);
                    assert(j.subrange(i, i + m)[d] == j[lp + m]);
                    assert(j[lp + m] == b[0]);
                    assert(b[0] != sep[d]);
                } else {
                    assert(j.subrange(i, i + m)[0] == j[i]);
                    assert(j[i] == b[i - lp - m]);
                    assert(b[i - lp - m] != sep[0]);
                }
            }
        }
        lemma_count_zero(j, sep, lp + 1, l + 1);
        lemma_count_split(j, sep, 0, lp, l + 1);
        lemma_count_split(j, sep, lp, lp + 1, l + 1);
        lemma_count_split(jp, sep, 0, lp, lp + 1);
        assert(count_range(j, sep, lp, lp) == 0);
        assert(count_range(jp, sep, lp, lp) == 0);
        assert(count_range(j, sep, lp, lp + 1) == 1);
        assert(count_range(jp, sep, lp, lp + 1) == 0);
    }
}

/// For `N` expanded files, when the decoded separator is non-empty and none
/// of its bytes occurs in any per-file block — one way for it to be
/// distinguishable from the content — the output holds exactly `N - 1`
/// occurrences of the separator.
pub proof fn lemma_separator_occurrence_count(entries: Seq<FileEntry>, cfg: RunConfig)
    requires
        entries.len() >= 1,
        unescape_spec(cfg.separator@).len() > 0,
        forall|j: int|
            0 <= j < entries.len() ==> byte_disjoint(
                #[trigger] blocks_of(entries, cfg)[j],
                unescape_spec(cfg.separator@),
            ),
    ensures
        count_occurrences(assembled_bytes(entries, cfg), unescape_spec(cfg.separator@))
            == entries.len() - 1,
{
    let blocks = blocks_of(entries, cfg);
    let sep = unescape_spec(cfg.separator@);
    lemma_blocks_and_separators(entries, cfg);
    assert(forall|j: int| 0 <= j < blocks.len() ==> #[trigger] blocks[j].len() > 0) by {
        assert forall|j: int| 0 <= j < blocks.len() implies #[trigger] blocks[j].len() > 0 by {
            assert(blocks[j] == rendered_header(
                cfg.header_format@,
                (j + 1) as nat,
                entries[j].basename@,
                entries[j].relpath@,
            ) + newline() + body_bytes(entries[j], cfg.skip_binary));
        }
    }
    lemma_join_sep_count(blocks, sep, blocks.len() as int);
    assert(blocks.take(blocks.len() as int) =~= blocks);
}

/// A file over the size cutoff contributes its rendered header and the
/// literal `<skipped: too large>` marker, and nothing of its content: its
/// block is the same whatever the file held.
pub proof fn lemma_too_large_block(cfg: RunConfig, e: FileEntry, index: nat)
    requires
        e.payload is TooLarge,
    ensures
        block_bytes(cfg, e, index) == rendered_header(
            cfg.header_format@,
            index,
            e.basename@,
            e.relpath@,
        ) + newline() + marker_too_large() + newline(),
{
    assert(block_bytes(cfg, e, index) =~= rendered_header(
        cfg.header_format@,
        index,
        e.basename@,
        e.relpath@,
    ) + newline() + marker_too_large() + newline());
}

/// With binary skipping on, a file whose bytes include a null byte
/// contributes its rendered header and the literal `<skipped: binary>`
/// marker: its block does not depend on the bytes, so none of them appear
/// in the output.
pub proof fn lemma_null_byte_block(cfg: RunConfig, e: FileEntry, index: nat, b: Vec<u8>)
    requires
        cfg.skip_binary,
        e.payload == Payload::Data(b),
        b@.contains(0u8),
    ensures
        block_bytes(cfg, e, index) == rendered_header(
            cfg.header_format@,
            index,
            e.basename@,
            e.relpath@,
        ) + newline() + marker_binary() + newline(),
{
    lemma_null_byte_is_binary(b@);
    assert(block_bytes(cfg, e, index) =~= rendered_header(
        cfg.header_format@,
        index,
        e.basename@,
        e.relpath@,
    ) + newline() + marker_binary() + newline());
}

/// With binary skipping on, replacing the bytes of a null-containing file
/// by any other null-containing bytes leaves the whole output unchanged:
/// nothing of such a file's content reaches the output.
pub proof fn lemma_binary_content_never_appears(
    entries: Seq<FileEntry>,
    cfg: RunConfig,
    i: int,
    b2: Vec<u8>,
)
    requires
        cfg.skip_binary,
        0 <= i < entries.len(),
        entries[i].payload matches Payload::Data(b) && b@.contains(0u8),
        b2@.contains(0u8),
    ensures
        assembled_bytes(entries, cfg) == assembled_bytes(
            entries.update(i, FileEntry { payload: Payload::Data(b2), ..entries[i] }),
            cfg,
        ),
{
    let swapped = entries.update(i, FileEntry { payload: Payload::Data(b2), ..entries[i] });
    lemma_blocks_and_separators(entries, cfg);
    lemma_blocks_and_separators(swapped, cfg);
    assert forall|j: int| 0 <= j < entries.len() implies blocks_of(entries, cfg)[j] == blocks_of(
        swapped,
        cfg,
    )[j] by {
        if j == i {
            let b = entries[i].payload->Data_0;
            lemma_null_byte_block(cfg, entries[i], (i + 1) as nat, b);
            lemma_null_byte_block(cfg, swapped[i], (i + 1) as nat, b2);
        }
    }
    assert(blocks_of(entries, cfg) =~= blocks_of(swapped, cfg));
}

/// Renders the header for file number `index`, substituting `${index}`,
/// `${basename}` and `${relpath}` in that order, every occurrence of each.
pub fn render_header(tmpl: &Vec<u8>, index: usize, base: &Vec<u8>, rel: &Vec<u8>) -> (r: Vec<u8>)
    ensures
        r@ == rendered_header(tmpl@, index as nat, base@, rel@),
{
    proof {
        reveal_strlit("${index}");
        reveal_strlit("${basename}");
        reveal_strlit("${relpath}");
    }
    let idx = to_decimal(index);
    let r1 = replace_all(tmpl, &lit_bytes("${index}"), &idx);
    let r2 = replace_all(&r1, &lit_bytes("${basename}"), base);
    let r3 = replace_all(&r2, &lit_bytes("${relpath}"), rel);
    r3
}

/// Builds the entry for one expanded file from its path, the optional
/// workspace root, and its payload.
pub fn make_entry(path: &String, root: &Option<String>, payload: Payload) -> (e: FileEntry)
    ensures
        e.basename@ == encode_utf8(header_basename(path@)),
        e.relpath@ == encode_utf8(display_path(path@, root.deep_view())),
        e.payload == payload,
{
    let base = basename_for(path);
    let rel = relpath_for(path, root);
    FileEntry {
        basename: base.as_str().as_bytes_vec(),
        relpath: rel.as_str().as_bytes_vec(),
        payload,
    }
}

/// True when a file of `size` bytes is over the cutoff of `max_kb` KiB.
pub fn exceeds_limit(size: u64, max_kb: u64) -> (r: bool)
    ensures
        r == (size > max_kb * 1024),
{
    (size as u128) > (max_kb as u128) * 1024
}

/// Assembles the combined text from the entries, in order: each file's
/// header and body, with the decoded separator between files, and counts
/// how many files were processed and how many skipped.
pub fn assemble(entries: &Vec<FileEntry>, cfg: &RunConfig) -> (r: Assembly)
    ensures
        r.text@ == assembled_bytes(entries@, *cfg),
        r.skipped == skipped_upto(entries@, cfg.skip_binary, entries@.len() as int),
        r.processed + r.skipped == entries@.len(),
{
    let sep = unescape(&cfg.separator);
    let mut text: Vec<u8> = Vec::new();
    let mut processed: usize = 0;
    let mut skipped: usize = 0;
    let n = entries.len();
    let mut i: usize = 0;
    while i < n
        invariant
            n == entries@.len(),
            i <= n,
            sep@ == unescape_spec(cfg.separator@),
            text@ == assembled_upto(entries@, *cfg, i as int),
            skipped == skipped_upto(entries@, cfg.skip_binary, i as int),
            processed + skipped == i,
        decreases n - i,
    {
        let ghost text_before = text@;
        let e = &entries[i];
        let mut header = render_header(&cfg.header_format, i + 1, &e.basename, &e.relpath);
        text.append(&mut header);
        text.push(10);
        match &e.payload {
            Payload::TooLarge => {
                proof {
                    reveal_strlit("<skipped: too large>");
                }
                let mut m = lit_bytes("<skipped: too large>");
                text.append(&mut m);
                text.push(10);
                skipped += 1;
            },
            Payload::Data(b) => {
                if cfg.skip_binary && is_binary(b) {
                    proof {
                        reveal_strlit("<skipped: binary>");
                    }
                    let mut m = lit_bytes("<skipped: binary>");
                    text.append(&mut m);
                    text.push(10);
                    skipped += 1;
                } else {
                    let mut c = clean_content(b);
                    text.append(&mut c);
                    text.push(10);
                    processed += 1;
                }
            },
        }
        proof {
            assert(text@ =~= text_before + block_bytes(*cfg, entries@[i as int], (i + 1) as nat));
        }
        if i + 1 != n {
            let mut s2 = sep.clone();
            text.append(&mut s2);
        }
        proof {
            assert(text@ =~= text_before + piece_bytes(entries@, *cfg, i as int));
        }
        i += 1;
    }
    Assembly { text, processed, skipped }
}

} // verus!
