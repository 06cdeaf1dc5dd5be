use vstd::prelude::*;
use vstd::string::StringSliceAdditionalSpecFns;
use vstd::utf8::encode_utf8;

verus! {

pub const NEWLINE: u8 = 10;

/// The tag that ends every line this crate adds to the hosts table, so that
/// removal never touches a line it did not write.
pub fn marker() -> (r: &'static str)
    ensures
        encode_utf8(r@) == marker_bytes(),
{
    let m = "# ffxi-login-rs";
    proof {
        reveal_strlit("# ffxi-login-rs");
        broadcast use vstd::string::is_ascii_spec_bytes;
        assert(vstd::string::is_ascii(m));
        assert(m.spec_bytes() =~= Seq::new(m@.len(), |i: int| m@[i] as u8));
        assert(m.spec_bytes() =~= marker_bytes());
    }
    m
}

pub open spec fn marker_bytes() -> Seq<u8> {
    seq![35u8, 32, 102, 102, 120, 105, 45, 108, 111, 103, 105, 110, 45, 114, 115]
}

/// `needle` occurs in `hay` at position `i`.
pub open spec fn occurs_at(hay: Seq<u8>, needle: Seq<u8>, i: int) -> bool {
    0 <= i && i + needle.len() <= hay.len() && hay.subrange(i, i + needle.len()) == needle
}

pub open spec fn contains(hay: Seq<u8>, needle: Seq<u8>) -> bool {
    exists|i: int| occurs_at(hay, needle, i)
}

pub open spec fn is_tagged(line: Seq<u8>) -> bool {
    contains(line, marker_bytes())
}

/// Reading `s` from the left: the lines finished by a newline (each without its
/// newline; every other byte, a carriage return too, stays in its line), and the
/// text after the last newline.
pub open spec fn scan(s: Seq<u8>) -> (Seq<Seq<u8>>, Seq<u8>)
    decreases s.len(),
{
    if s.len() == 0 {
        (seq![], seq![])
    } else {
        let (done, cur) = scan(s.drop_last());
        if s.last() == NEWLINE {
            (done.push(cur), seq![])
        } else {
            (done, cur.push(s.last()))
        }
    }
}

/// The lines of a text: newline-terminated lines, then the unterminated rest if
/// it is not empty.
pub open spec fn lines(s: Seq<u8>) -> Seq<Seq<u8>> {
    let (done, cur) = scan(s);
    if cur.len() == 0 {
        done
    } else {
        done.push(cur)
    }
}

/// Every line followed by a newline.
pub open spec fn unlines(ls: Seq<Seq<u8>>) -> Seq<u8>
    decreases ls.len(),
{
    if ls.len() == 0 {
        seq![]
    } else {
        unlines(ls.drop_last()) + ls.last() + seq![NEWLINE]
    }
}

/// The test that a line survives removal: it carries no tag.
pub open spec fn keep_line() -> spec_fn(Seq<u8>) -> bool {
    |l: Seq<u8>| !is_tagged(l)
}

/// The lines of a table that carry no tag.
pub open spec fn kept(s: Seq<u8>) -> Seq<Seq<u8>> {
    lines(s).filter(keep_line())
}

/// The table with every tagged line taken out: the other lines in their order,
/// joined by newlines, with a newline at the end.
pub open spec fn without_tagged(s: Seq<u8>) -> Seq<u8> {
    if kept(s).len() == 0 {
        seq![NEWLINE]
    } else {
        unlines(kept(s))
    }
}

/// The line that adding `entry` appends: the entry, a space, the tag, a newline.
pub open spec fn entry_line_bytes(entry: Seq<char>) -> Seq<u8> {
    encode_utf8(entry) + seq![32u8] + marker_bytes() + seq![NEWLINE]
}

/// Whether `needle` occurs in `hay`.
pub fn find_bytes(hay: &[u8], needle: &[u8]) -> (r: bool)
    ensures
        r == contains(hay@, needle@),
{
    if needle.len() > hay.len() {
        proof {
            assert forall|i: int| !occurs_at(hay@, needle@, i) by {}
        }
        return false;
    }
    let n = hay.len();
    let last = n - needle.len();
    let mut i: usize = 0;
    while i <= last
        invariant
            needle@.len() <= hay@.len(),
            n == hay@.len(),
            last == hay@.len() - needle@.len(),
            i <= last + 1,
            forall|k: int| 0 <= k < i ==> !occurs_at(hay@, needle@, k),
        decreases last + 1 - i,
    {
        let mut j: usize = 0;
        let mut same = true;
        while j < needle.len() && same
            invariant
                i <= last,
                needle@.len() <= hay@.len(),
                n == hay@.len(),
                last == hay@.len() - needle@.len(),
                j <= needle@.len(),
                forall|m: int| 0 <= m < j ==> hay@[i + m] == needle@[m],
                !same ==> j < needle@.len() && hay@[i + j] != needle@[j as int],
            decreases needle@.len() - j + (if same { 1int } else { 0int }),
        {
            if hay[i + j] == needle[j] {
                j = j + 1;
            } else {
                same = false;
            }
        }
        if j == needle.len() {
            proof {
                assert(hay@.subrange(i as int, i + needle@.len()) =~= needle@);
                assert(occurs_at(hay@, needle@, i as int));
            }
            return true;
        }
        proof {
            assert(hay@.subrange(i as int, i + needle@.len())[j as int] != needle@[j as int]);
        }
        i = i + 1;
    }
    proof {
        assert forall|k: int| !occurs_at(hay@, needle@, k) by {
            if 0 <= k && k + needle@.len() <= hay@.len() {
                assert(k < i);
            }
        }
    }
    false
}

/// The line to append to the hosts table for `entry`, tagged so that
/// `remove_entries` finds it again.
pub fn entry_line(entry: &str) -> (r: Vec<u8>)
    ensures
        r@ == entry_line_bytes(entry@),
{
    let mut v: Vec<u8> = Vec::new();
    v.extend_from_slice(entry.as_bytes());
    v.push(32u8);
    v.extend_from_slice(marker().as_bytes());
    v.push(NEWLINE);
    proof {
        assert(v@ =~= entry_line_bytes(entry@));
    }
    v
}


/// The hosts table with every tagged line removed: the other lines keep their
/// order and each ends in a newline.
pub fn remove_entries(table: &[u8]) -> (r: Vec<u8>)
    ensures
        r@ == without_tagged(table@),
{
    let m = marker().as_bytes();
    let mut out: Vec<u8> = Vec::new();
    let mut cur: Vec<u8> = Vec::new();
    let mut n_kept: usize = 0;
    let mut i: usize = 0;
    while i < table.len()
        invariant
            m@ == marker_bytes(),
            i <= table@.len(),
            n_kept + cur@.len() <= i,
            cur@ == scan(table@.take(i as int)).1,
            out@ == unlines(scan(table@.take(i as int)).0.filter(keep_line())),
            n_kept == scan(table@.take(i as int)).0.filter(keep_line()).len(),
        decreases table@.len() - i,
    {
        let ghost prev = scan(table@.take(i as int));
        let b = table[i];
        proof {
            assert(table@.take(i + 1).drop_last() =~= table@.take(i as int));
        }
        if b == NEWLINE {
            let tagged = find_bytes(cur.as_slice(), m);
            proof {
                lemma_filter_push(prev.0, cur@, keep_line());
            }
            if !tagged {
                let ghost before = out@;
                out.extend_from_slice(cur.as_slice());
                out.push(NEWLINE);
                proof {
                    let f = prev.0.push(cur@).filter(keep_line());
                    assert(f.drop_last() == prev.0.filter(keep_line()));
                    assert(out@ =~= before + cur@ + seq![NEWLINE]);
                }
                n_kept = n_kept + 1;
            }
            cur = Vec::new();
        } else {
            cur.push(b);
        }
        i = i + 1;
    }
    assert(table@.take(i as int) =~= table@);
    if cur.len() > 0 {
        let tagged = find_bytes(cur.as_slice(), m);
        proof {
            lemma_filter_push(scan(table@).0, cur@, keep_line());
        }
        if !tagged {
            let ghost before = out@;
            out.extend_from_slice(cur.as_slice());
            out.push(NEWLINE);
            proof {
                let f = scan(table@).0.push(cur@).filter(keep_line());
                assert(f.drop_last() == scan(table@).0.filter(keep_line()));
                assert(out@ =~= before + cur@ + seq![NEWLINE]);
            }
            n_kept = n_kept + 1;
        }
    }
    if n_kept == 0 {
        let mut only: Vec<u8> = Vec::new();
        only.push(NEWLINE);
        assert(only@ =~= seq![NEWLINE]);
        return only;
    }
    out
}

proof fn lemma_filter_push(s: Seq<Seq<u8>>, x: Seq<u8>, p: spec_fn(Seq<u8>) -> bool)
    ensures
        s.push(x).filter(p) == if p(x) {
            s.filter(p).push(x)
        } else {
            s.filter(p)
        },
{
    reveal(Seq::filter);
    assert(s.push(x).drop_last() =~= s);
}

/// A filter that every element passes changes nothing.
proof fn lemma_filter_keeps_all(s: Seq<Seq<u8>>, p: spec_fn(Seq<u8>) -> bool)
    requires
        forall|k: int| 0 <= k < s.len() ==> p(#[trigger] s[k]),
    ensures
        s.filter(p) == s,
    decreases s.len(),
{
    if s.len() > 0 {
        lemma_filter_keeps_all(s.drop_last(), p);
        lemma_filter_push(s.drop_last(), s.last(), p);
        assert(s.drop_last().push(s.last()) =~= s);
    }
}

/// What holds of every element still holds after a filter.
proof fn lemma_filter_preserves(s: Seq<Seq<u8>>, p: spec_fn(Seq<u8>) -> bool, q: spec_fn(Seq<u8>) -> bool)
    requires
        forall|k: int| 0 <= k < s.len() ==> q(#[trigger] s[k]),
    ensures
        forall|k: int| 0 <= k < s.filter(p).len() ==> q(#[trigger] s.filter(p)[k]),
    decreases s.len(),
{
    if s.len() > 0 {
        lemma_filter_preserves(s.drop_last(), p, q);
        lemma_filter_push(s.drop_last(), s.last(), p);
        assert(s.drop_last().push(s.last()) =~= s);
    }
}

pub open spec fn no_newline(l: Seq<u8>) -> bool {
    forall|k: int| 0 <= k < l.len() ==> l[k] != NEWLINE
}

/// Appending bytes that hold no newline only extends the unfinished line.
proof fn lemma_scan_extend(a: Seq<u8>, l: Seq<u8>)
    requires
        no_newline(l),
    ensures
        scan(a + l) == (scan(a).0, scan(a).1 + l),
    decreases l.len(),
{
    if l.len() == 0 {
        assert(a + l =~= a);
        assert(scan(a).1 + l =~= scan(a).1);
    } else {
        lemma_scan_extend(a, l.drop_last());
        assert((a + l).drop_last() =~= a + l.drop_last());
        assert(scan(a).1 + l =~= (scan(a).1 + l.drop_last()).push(l.last()));
    }
}

/// No line that the scan produces holds a newline.
proof fn lemma_scan_lines_clean(s: Seq<u8>)
    ensures
        forall|k: int| 0 <= k < scan(s).0.len() ==> no_newline(#[trigger] scan(s).0[k]),
        no_newline(scan(s).1),
    decreases s.len(),
{
    if s.len() > 0 {
        lemma_scan_lines_clean(s.drop_last());
    }
}

/// Reading back lines that were written out one per newline gives them again.
proof fn lemma_scan_unlines(ls: Seq<Seq<u8>>)
    requires
        forall|k: int| 0 <= k < ls.len() ==> no_newline(#[trigger] ls[k]),
    ensures
        scan(unlines(ls)) == (ls, Seq::<u8>::empty()),
    decreases ls.len(),
{
    if ls.len() == 0 {
    } else {
        let init = ls.drop_last();
        lemma_scan_unlines(init);
        let x = unlines(init) + ls.last();
        assert(no_newline(ls[ls.len() - 1]));
        lemma_scan_extend(unlines(init), ls.last());
        assert(Seq::<u8>::empty() + ls.last() =~= ls.last());
        assert((x + seq![NEWLINE]).drop_last() =~= x);
        assert(init.push(ls.last()) =~= ls);
    }
}

/// Writing the scanned lines back out, each followed by a newline, then the
/// unfinished rest, gives the text again.
proof fn lemma_unlines_scan(s: Seq<u8>)
    ensures
        unlines(scan(s).0) + scan(s).1 == s,
    decreases s.len(),
{
    if s.len() > 0 {
        let p = s.drop_last();
        lemma_unlines_scan(p);
        let (done, cur) = scan(p);
        assert(p.push(s.last()) =~= s);
        if s.last() == NEWLINE {
            assert(done.push(cur).drop_last() =~= done);
            assert(unlines(done.push(cur)) + Seq::<u8>::empty() =~= s);
        } else {
            assert(unlines(done) + cur.push(s.last()) =~= (unlines(done) + cur).push(s.last()));
        }
    }
}

/// Every line of a table is free of newlines.
proof fn lemma_lines_clean(t: Seq<u8>)
    ensures
        forall|k: int| 0 <= k < lines(t).len() ==> no_newline(#[trigger] lines(t)[k]),
{
    lemma_scan_lines_clean(t);
    assert forall|k: int| 0 <= k < lines(t).len() implies no_newline(#[trigger] lines(t)[k]) by {
        if k < scan(t).0.len() {
            assert(lines(t)[k] == scan(t).0[k]);
        }
    }
}

/// The empty line carries no tag.
proof fn lemma_empty_untagged()
    ensures
        !is_tagged(Seq::<u8>::empty()),
{
    let e = Seq::<u8>::empty();
    assert forall|i: int| !occurs_at(e, marker_bytes(), i) by {}
}

/// The lines of the table after removal: the untagged lines of the table, or a
/// single empty line when there are none.
pub proof fn lemma_lines_after_removal(t: Seq<u8>)
    ensures
        kept(t).len() > 0 ==> lines(without_tagged(t)) == kept(t),
        kept(t).len() == 0 ==> lines(without_tagged(t)) == seq![Seq::<u8>::empty()],
{
    let ks = kept(t);
    lemma_lines_clean(t);
    lemma_filter_preserves(lines(t), keep_line(), |l: Seq<u8>| no_newline(l));
    assert(forall|k: int| 0 <= k < ks.len() ==> no_newline(#[trigger] ks[k]));
    if ks.len() == 0 {
        let w = seq![NEWLINE];
        assert(w.drop_last() =~= Seq::<u8>::empty());
        assert(scan(Seq::<u8>::empty()).0 =~= Seq::<Seq<u8>>::empty());
        assert(scan(w).0 =~= seq![Seq::<u8>::empty()]);
        assert(scan(w).1 =~= Seq::<u8>::empty());
    } else {
        lemma_scan_unlines(ks);
    }
}

/// After removal no line of the table carries the tag, and the untagged lines
/// are those of the table before, in their order.
pub proof fn lemma_removal_leaves_no_tag(t: Seq<u8>)
    ensures
        forall|k: int|
            0 <= k < lines(without_tagged(t)).len() ==> !is_tagged(
                #[trigger] lines(without_tagged(t))[k],
            ),
        kept(t) == lines(t).filter(keep_line()),
{
    lemma_lines_after_removal(t);
    lemma_empty_untagged();
    let ks = kept(t);
    if ks.len() > 0 {
        assert forall|k: int| 0 <= k < ks.len() implies !is_tagged(#[trigger] ks[k]) by {
            lines(t).lemma_filter_pred(keep_line(), k);
        }
    }
}

/// Removing the tagged lines twice leaves the same table as removing them once.
pub proof fn lemma_remove_idempotent(t: Seq<u8>)
    ensures
        without_tagged(without_tagged(t)) == without_tagged(t),
{
    let ks = kept(t);
    let w = without_tagged(t);
    lemma_lines_after_removal(t);
    lemma_empty_untagged();
    if ks.len() == 0 {
        lemma_filter_keeps_all(lines(w), keep_line());
        let e = Seq::<u8>::empty();
        assert(kept(w) =~= seq![e]);
        assert(seq![e].last() == e);
        assert(seq![e].drop_last() =~= Seq::<Seq<u8>>::empty());
        assert(unlines(Seq::<Seq<u8>>::empty()) =~= Seq::<u8>::empty());
        assert(unlines(seq![e]) =~= w);
    } else {
        assert forall|k: int| 0 <= k < ks.len() implies (keep_line())(#[trigger] ks[k]) by {
            lines(t).lemma_filter_pred(keep_line(), k);
        }
        lemma_filter_keeps_all(ks, keep_line());
    }
}

/// What adding `entry` appends to table `t`: the tagged entry line, after a
/// newline when `t` is not empty and its last line has none, so that the entry
/// always stands on a line of its own.
pub open spec fn appended_bytes(t: Seq<u8>, entry: Seq<char>) -> Seq<u8> {
    if t.len() > 0 && t.last() != NEWLINE {
        seq![NEWLINE] + entry_line_bytes(entry)
    } else {
        entry_line_bytes(entry)
    }
}

/// The bytes to append to the hosts table `table` to add `entry` on a line of
/// its own, tagged so that `remove_entries` finds it again.
pub fn add_entry(table: &[u8], entry: &str) -> (r: Vec<u8>)
    ensures
        r@ == appended_bytes(table@, entry@),
{
    let line = entry_line(entry);
    if table.len() > 0 && table[table.len() - 1] != NEWLINE {
        let mut v: Vec<u8> = Vec::new();
        v.push(NEWLINE);
        v.extend_from_slice(line.as_slice());
        proof {
            assert(v@ =~= seq![NEWLINE] + entry_line_bytes(entry@));
        }
        v
    } else {
        line
    }
}

/// Adding an entry gives the table's lines followed by the tagged entry line.
pub proof fn lemma_lines_after_add(t: Seq<u8>, entry: Seq<char>)
    requires
        no_newline(encode_utf8(entry)),
    ensures
        lines(t + appended_bytes(t, entry)) == lines(t).push(
            encode_utf8(entry) + seq![32u8] + marker_bytes(),
        ),
        is_tagged(encode_utf8(entry) + seq![32u8] + marker_bytes()),
{
    let body = encode_utf8(entry) + seq![32u8] + marker_bytes();
    assert(no_newline(body)) by {
        assert forall|k: int| 0 <= k < body.len() implies body[k] != NEWLINE by {
            if k < encode_utf8(entry).len() {
                assert(body[k] == encode_utf8(entry)[k]);
            }
        }
    }
    let base = if t.len() > 0 && t.last() != NEWLINE {
        t + seq![NEWLINE]
    } else {
        t
    };
    if t.len() > 0 && t.last() != NEWLINE {
        assert(base.drop_last() =~= t);
        assert(t + appended_bytes(t, entry) =~= base + entry_line_bytes(entry));
    } else {
        assert(t + appended_bytes(t, entry) =~= base + entry_line_bytes(entry));
    }
    assert(scan(base).1.len() == 0);
    assert(scan(base).0 == lines(t));
    lemma_scan_extend(base, body);
    assert(Seq::<u8>::empty() + body =~= body);
    let s = base + entry_line_bytes(entry);
    assert(s =~= (base + body) + seq![NEWLINE]);
    assert(s.drop_last() =~= base + body);
    assert(is_tagged(body)) by {
        let i = body.len() - marker_bytes().len();
        assert(body.subrange(i, i + marker_bytes().len()) =~= marker_bytes());
        assert(occurs_at(body, marker_bytes(), i));
    }
}

/// Adding a tagged entry and then removing the tagged lines gives the same
/// table as removing them without the entry, provided the entry is one line.
pub proof fn lemma_add_then_remove(t: Seq<u8>, entry: Seq<char>)
    requires
        no_newline(encode_utf8(entry)),
    ensures
        without_tagged(t + appended_bytes(t, entry)) == without_tagged(t),
{
    lemma_lines_after_add(t, entry);
    lemma_filter_push(lines(t), encode_utf8(entry) + seq![32u8] + marker_bytes(), keep_line());
}

/// A table that is not empty and has no tagged line keeps its lines, in their
/// order, through the removal; when it ends in a newline it is kept byte for
/// byte.
pub proof fn lemma_remove_keeps_clean(t: Seq<u8>)
    requires
        t.len() > 0,
        forall|k: int| 0 <= k < lines(t).len() ==> !is_tagged(#[trigger] lines(t)[k]),
    ensures
        lines(without_tagged(t)) == lines(t),
        t.last() == NEWLINE ==> without_tagged(t) == t,
{
    lemma_filter_keeps_all(lines(t), keep_line());
    lemma_unlines_scan(t);
    if scan(t).1.len() == 0 {
        assert(unlines(scan(t).0) + Seq::<u8>::empty() =~= unlines(scan(t).0));
        assert(lines(t).len() > 0);
    } else {
        assert(lines(t).len() > 0);
    }
    lemma_lines_after_removal(t);
}

/// Adding an entry to a table and then removing the tagged lines gives back
/// every line of the table, in its order, and the table itself byte for byte
/// when it ended in a newline. The table must not be empty (it would come back
/// as a lone newline) and must hold no tagged line (that would go too), and the
/// entry must be a single line.
pub proof fn lemma_add_then_remove_restores(t: Seq<u8>, entry: Seq<char>)
    requires
        t.len() > 0,
        forall|k: int| 0 <= k < lines(t).len() ==> !is_tagged(#[trigger] lines(t)[k]),
        no_newline(encode_utf8(entry)),
    ensures
        lines(without_tagged(t + appended_bytes(t, entry))) == lines(t),
        t.last() == NEWLINE ==> without_tagged(t + appended_bytes(t, entry)) == t,
{
    lemma_add_then_remove(t, entry);
    lemma_remove_keeps_clean(t);
}

} // verus!
