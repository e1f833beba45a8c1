//! The `key=value` record format of a server's properties file.
//!
//! Rendering, line splitting and line parsing are verified here; the shell
//! only moves the text to and from disk.

use vstd::prelude::*;
use vstd::string::*;

use crate::text::spec_dec;
use crate::text::u64_to_dec;
use crate::types::Property;

verus! {

/// The text of a property list: one `key=value` line per entry.
pub open spec fn spec_render_props(s: Seq<Property>) -> Seq<char>
    decreases s.len(),
{
    if s.len() == 0 {
        Seq::<char>::empty()
    } else {
        spec_render_props(s.drop_last()) + s.last().key@ + "="@ + s.last().value@ + "\n"@
    }
}

/// Renders a property list, exactly as [`spec_render_props`] describes.
pub fn render_properties(props: &Vec<Property>) -> (r: String)
    ensures
        r@ == spec_render_props(props@),
{
    let mut r = String::new();
    let n = props.len();
    let mut k: usize = 0;
    while k < n
        invariant
            0 <= k <= n,
            n == props@.len(),
            r@ == spec_render_props(props@.take(k as int)),
        decreases n - k,
    {
        r.append(props[k].key.as_str());
        r.append("=");
        r.append(props[k].value.as_str());
        r.append("\n");
        proof {
            assert(props@.take(k + 1).drop_last() =~= props@.take(k as int));
            assert(props@.take(k + 1).last() == props@[k as int]);
        }
        k = k + 1;
    }
    proof {
        assert(props@.take(n as int) =~= props@);
    }
    r
}

/// Splits text into its lines: the pieces between newline characters. The
/// result is pinned by two facts: no piece holds a newline, and joining
/// the pieces with newlines gives the text back.
pub open spec fn spec_join_lines(ls: Seq<Seq<char>>) -> Seq<char>
    decreases ls.len(),
{
    if ls.len() == 0 {
        Seq::<char>::empty()
    } else if ls.len() == 1 {
        ls[0]
    } else {
        spec_join_lines(ls.drop_last()) + "\n"@ + ls.last()
    }
}

/// Splits `text` at every newline.
pub fn split_lines(text: &str) -> (r: Vec<String>)
    ensures
        r@.len() > 0,
        spec_join_lines(Seq::new(r@.len() as nat, |i: int| r@[i]@)) == text@,
        forall|i: int, j: int|
            0 <= i < r@.len() && 0 <= j < r@[i]@.len() ==> #[trigger] r@[i]@[j] != '\n',
{
    proof {
        reveal_strlit("\n");
    }
    let len = text.unicode_len();
    let mut r: Vec<String> = Vec::new();
    let mut start: usize = 0;
    let mut k: usize = 0;
    while k < len
        invariant
            0 <= start <= k <= len,
            len == text@.len(),
            spec_join_lines(
                Seq::new(r@.len() as nat, |i: int| r@[i]@).push(
                    text@.subrange(start as int, k as int),
                ),
            ) == text@.subrange(0, k as int),
            forall|i: int, j: int|
                0 <= i < r@.len() && 0 <= j < r@[i]@.len() ==> #[trigger] r@[i]@[j] != '\n',
            forall|j: int| start <= j < k ==> text@[j] != '\n',
        decreases len - k,
    {
        let ghost lines = Seq::new(r@.len() as nat, |i: int| r@[i]@);
        let c = text.get_char(k);
        if c == '\n' {
            let piece = text.substring_char(start, k).to_owned();
            r.push(piece);
            proof {
                reveal_strlit("\n");
                let lines2 = Seq::new(r@.len() as nat, |i: int| r@[i]@);
                assert(lines2 =~~= lines.push(text@.subrange(start as int, k as int)));
                let next = lines2.push(text@.subrange(k + 1, k + 1));
                assert(next.drop_last() =~~= lines2);
                assert(next.len() > 1);
                assert(spec_join_lines(next) == spec_join_lines(lines2) + "\n"@ + text@.subrange(
                    k + 1,
                    k + 1,
                ));
                assert(spec_join_lines(next) =~= text@.subrange(0, k + 1));
            }
            start = k + 1;
        } else {
            proof {
                reveal_strlit("\n");
                let cur = lines.push(text@.subrange(start as int, k as int));
                let nxt = lines.push(text@.subrange(start as int, k + 1));
                assert(text@.subrange(start as int, k + 1) =~= text@.subrange(
                    start as int,
                    k as int,
                ).push(c));
                if lines.len() == 0 {
                    assert(spec_join_lines(nxt) =~= spec_join_lines(cur).push(c));
                } else {
                    assert(nxt.drop_last() =~= lines);
                    assert(cur.drop_last() =~= lines);
                    assert(spec_join_lines(nxt) =~= spec_join_lines(cur).push(c));
                }
                assert(text@.subrange(0, k + 1) =~= text@.subrange(0, k as int).push(c));
            }
        }
        k = k + 1;
    }
    let piece = text.substring_char(start, len).to_owned();
    let ghost lines = Seq::new((r@.len()) as nat, |i: int| r@[i]@);
    r.push(piece);
    proof {
        let lines2 = Seq::new(r@.len() as nat, |i: int| r@[i]@);
        assert(lines2 =~~= lines.push(text@.subrange(start as int, len as int)));
        assert(text@.subrange(0, len as int) =~= text@);
    }
    r
}

/// Whether a line holds a `=` separator.
pub open spec fn spec_has_eq(l: Seq<char>) -> bool {
    exists|i: int| 0 <= i < l.len() && #[trigger] l[i] == '='
}

/// Parses one line of a properties file: empty lines and comments yield
/// nothing; any other line must carry a separator, and splits at the first
/// one.
pub fn parse_property_line(line: &str) -> (r: Option<Property>)
    ensures
        r is None <==> line@.len() == 0 || line@[0] == '#' || !spec_has_eq(line@),
        r matches Some(p) ==> exists|i: int|
            {
                &&& 0 <= i < line@.len()
                &&& #[trigger] line@[i] == '='
                &&& (forall|j: int| 0 <= j < i ==> line@[j] != '=')
                &&& p.key@ == line@.subrange(0, i)
                &&& p.value@ == line@.subrange(i + 1, line@.len() as int)
            },
{
    let len = line.unicode_len();
    if len == 0 {
        return None;
    }
    if line.get_char(0) == '#' {
        return None;
    }
    let mut k: usize = 0;
    while k < len
        invariant
            0 <= k <= len,
            0 < len == line@.len(),
            line@[0] != '#',
            forall|j: int| 0 <= j < k ==> line@[j] != '=',
        decreases len - k,
    {
        if line.get_char(k) == '=' {
            let key = line.substring_char(0, k).to_owned();
            let value = line.substring_char(k + 1, len).to_owned();
            proof {
                let i = k as int;
                assert(0 <= i < line@.len() && line@[i] == '=' && (forall|j: int|
                    0 <= j < i ==> line@[j] != '=') && key@ == line@.subrange(0, i) && value@
                    == line@.subrange(i + 1, line@.len() as int));
            }
            return Some(Property { key, value });
        }
        k = k + 1;
    }
    proof {
        assert forall|i: int| 0 <= i < line@.len() implies #[trigger] line@[i] != '=' by {}
        assert(!spec_has_eq(line@));
    }
    None
}

/// Position of the first separator of a line that has one.
pub open spec fn spec_first_eq(l: Seq<char>) -> int {
    choose|i: int|
        0 <= i < l.len() && #[trigger] l[i] == '=' && (forall|j: int| 0 <= j < i ==> l[j] != '=')
}

/// What one line of a properties file means: nothing for blank lines,
/// comments and lines without a separator; otherwise the key before the
/// first separator and the value after it.
pub open spec fn spec_parse_line(l: Seq<char>) -> Option<(Seq<char>, Seq<char>)> {
    if l.len() == 0 || l[0] == '#' || !spec_has_eq(l) {
        None
    } else {
        Some((l.subrange(0, spec_first_eq(l)), l.subrange(spec_first_eq(l) + 1, l.len() as int)))
    }
}

/// The entries of a sequence of lines, in order, non-entries skipped.
pub open spec fn spec_parse_lines(ls: Seq<Seq<char>>) -> Seq<(Seq<char>, Seq<char>)>
    decreases ls.len(),
{
    if ls.len() == 0 {
        Seq::empty()
    } else {
        spec_parse_lines(ls.drop_last()) + (match spec_parse_line(ls.last()) {
            None => Seq::empty(),
            Some(kv) => seq![kv],
        })
    }
}

/// Parses the lines of a properties file into its entries, exactly as
/// [`spec_parse_lines`] describes.
pub fn parse_properties(lines: &Vec<String>) -> (r: Vec<Property>)
    ensures
        Seq::new(r@.len() as nat, |i: int| (r@[i].key@, r@[i].value@)) == spec_parse_lines(
            Seq::new(lines@.len() as nat, |i: int| lines@[i]@),
        ),
{
    let ghost all = Seq::new(lines@.len() as nat, |i: int| lines@[i]@);
    let mut r: Vec<Property> = Vec::new();
    let n = lines.len();
    let mut k: usize = 0;
    while k < n
        invariant
            0 <= k <= n,
            n == lines@.len(),
            all == Seq::new(lines@.len() as nat, |i: int| lines@[i]@),
            Seq::new(r@.len() as nat, |i: int| (r@[i].key@, r@[i].value@)) == spec_parse_lines(
                all.take(k as int),
            ),
        decreases n - k,
    {
        let ghost before = Seq::new(r@.len() as nat, |i: int| (r@[i].key@, r@[i].value@));
        let ghost l = lines@[k as int]@;
        proof {
            assert(all.take(k + 1).drop_last() =~= all.take(k as int));
            assert(all.take(k + 1).last() == l);
        }
        match parse_property_line(lines[k].as_str()) {
            Some(p) => {
                proof {
                    let i = choose|i: int|
                        {
                            &&& 0 <= i < l.len()
                            &&& #[trigger] l[i] == '='
                            &&& (forall|j: int| 0 <= j < i ==> l[j] != '=')
                            &&& p.key@ == l.subrange(0, i)
                            &&& p.value@ == l.subrange(i + 1, l.len() as int)
                        };
                    assert(spec_has_eq(l));
                    let fe = spec_first_eq(l);
                    assert(0 <= fe < l.len() && l[fe] == '=' && (forall|j: int|
                        0 <= j < fe ==> l[j] != '='));
                    assert(i == fe) by {
                        if i < fe {
                            assert(l[i] != '=');
                        } else if fe < i {
                            assert(l[fe] != '=');
                        }
                    }
                    assert(spec_parse_line(l) == Some((p.key@, p.value@)));
                }
                r.push(p);
                proof {
                    let after = Seq::new(r@.len() as nat, |i: int| (r@[i].key@, r@[i].value@));
                    assert(after =~= before.push(
                        (r@[r@.len() - 1].key@, r@[r@.len() - 1].value@),
                    ));
                    assert(after =~= spec_parse_lines(all.take(k + 1)));
                }
            },
            None => {
                proof {
                    assert(spec_parse_line(l) is None);
                    assert(spec_parse_lines(all.take(k + 1)) =~= spec_parse_lines(
                        all.take(k as int),
                    ));
                }
            },
        }
        k = k + 1;
    }
    proof {
        assert(all.take(n as int) =~= all);
    }
    r
}

/// Whether some entry carries this key.
/// Whether some entry carries this key.
pub open spec fn spec_has_key(s: Seq<Property>, key: Seq<char>) -> bool {
    exists|i: int| 0 <= i < s.len() && #[trigger] s[i].key@ == key
}

/// The position of the first entry carrying this key.
pub open spec fn spec_key_index(s: Seq<Property>, key: Seq<char>) -> int {
    choose|i: int| 0 <= i < s.len() && #[trigger] s[i].key@ == key
}

/// Looks a key up: the value of the first entry carrying it.
pub fn get_property<'a>(props: &'a Vec<Property>, key: &String) -> (r: Option<&'a String>)
    ensures
        r is Some <==> spec_has_key(props@, key@),
        r matches Some(v) ==> exists|i: int|
            {
                &&& 0 <= i < props@.len()
                &&& #[trigger] props@[i].key@ == key@
                &&& props@[i].value == *v
            },
{
    let n = props.len();
    let mut k: usize = 0;
    while k < n
        invariant
            0 <= k <= n,
            n == props@.len(),
            forall|i: int| 0 <= i < k ==> #[trigger] props@[i].key@ != key@,
        decreases n - k,
    {
        if props[k].key == *key {
            return Some(&props[k].value);
        }
        k = k + 1;
    }
    None
}

/// Sets a key: the first entry carrying it is replaced, or a new entry is
/// appended when none does. Exactly the addressed entry changes.
pub fn set_property(props: &mut Vec<Property>, key: String, value: String)
    ensures
        spec_has_key(final(props)@, key@),
        if spec_has_key(old(props)@, key@) {
            exists|i: int|
                {
                    &&& 0 <= i < old(props)@.len()
                    &&& #[trigger] old(props)@[i].key@ == key@
                    &&& (forall|j: int| 0 <= j < i ==> old(props)@[j].key@ != key@)
                    &&& final(props)@ =~= old(props)@.update(
                        i,
                        Property { key: key, value: value },
                    )
                }
        } else {
            final(props)@ =~= old(props)@.push(Property { key: key, value: value })
        },
{
    let n = props.len();
    let mut k: usize = 0;
    while k < n
        invariant
            0 <= k <= n,
            n == props@.len(),
            props@ == old(props)@,
            forall|i: int| 0 <= i < k ==> #[trigger] props@[i].key@ != key@,
        decreases n - k,
    {
        if props[k].key == key {
            proof {
                assert(old(props)@[k as int].key@ == key@);
            }
            props.set(k, Property { key, value });
            proof {
                assert(props@[k as int].key@ == key@);
                assert(spec_has_key(props@, key@));
            }
            return ;
        }
        k = k + 1;
    }
    proof {
        assert forall|i: int|
            0 <= i < props@.len() implies #[trigger] props@[i].key@ != key@ by {}
        assert(!spec_has_key(old(props)@, key@));
    }
    let ghost n0 = props@.len();
    props.push(Property { key, value });
    proof {
        assert(props@[n0 as int].key@ == key@);
        assert(spec_has_key(props@, key@));
    }
}

/// The properties a fresh instance starts with: its listening port and
/// player cap.
pub fn initial_properties(port: u16, max_players: u32) -> (r: Vec<Property>)
    ensures
        r@.len() == 2,
        r@[0].key@ == "server-port"@,
        r@[0].value@ == spec_dec(port as nat),
        r@[1].key@ == "max-players"@,
        r@[1].value@ == spec_dec(max_players as nat),
{
    let mut r: Vec<Property> = Vec::new();
    r.push(Property { key: "server-port".to_owned(), value: u64_to_dec(port as u64) });
    r.push(Property { key: "max-players".to_owned(), value: u64_to_dec(max_players as u64) });
    r
}

/// The line one entry renders to.
pub open spec fn spec_entry_line(p: Property) -> Seq<char> {
    p.key@ + "="@ + p.value@
}

/// An entry whose rendered line reads back unambiguously: the key carries
/// no separator or newline and does not open a comment, and the value
/// carries no newline.
pub open spec fn spec_entry_wf(p: Property) -> bool {
    &&& p.key@.len() > 0
    &&& p.key@[0] != '#'
    &&& (forall|i: int| 0 <= i < p.key@.len() ==> #[trigger] p.key@[i] != '=' && p.key@[i] != '\n')
    &&& (forall|i: int| 0 <= i < p.value@.len() ==> #[trigger] p.value@[i] != '\n')
}

/// A well-formed entry's rendered line parses back to exactly its key and
/// value.
proof fn lemma_entry_line_parses(p: Property)
    requires
        spec_entry_wf(p),
    ensures
        spec_parse_line(spec_entry_line(p)) == Some((p.key@, p.value@)),
{
    reveal_strlit("=");
    let l = spec_entry_line(p);
    let k = p.key@.len() as int;
    assert(l.len() == k + 1 + p.value@.len());
    assert(l[k] == '=');
    assert(l[0] == p.key@[0]);
    assert(spec_has_eq(l));
    assert forall|j: int| 0 <= j < k implies l[j] != '=' by {
        assert(l[j] == p.key@[j]);
    }
    let fe = spec_first_eq(l);
    assert(0 <= fe < l.len() && l[fe] == '=' && (forall|j: int| 0 <= j < fe ==> l[j] != '=')) by {
        assert(0 <= k < l.len() && l[k] == '=' && (forall|j: int| 0 <= j < k ==> l[j] != '='));
    }
    assert(fe == k) by {
        if fe < k {
            assert(l[fe] != '=');
        } else if k < fe {
            assert(l[k] != '=');
        }
    }
    assert(l.subrange(0, k) =~= p.key@);
    assert(l.subrange(k + 1, l.len() as int) =~= p.value@);
}

/// Reading the rendered lines of a well-formed property list yields
/// exactly the same entries, in order.
pub proof fn lemma_rendered_lines_read_back(props: Seq<Property>)
    requires
        forall|i: int| 0 <= i < props.len() ==> spec_entry_wf(#[trigger] props[i]),
    ensures
        spec_parse_lines(Seq::new(props.len(), |i: int| spec_entry_line(props[i]))) =~= Seq::new(
            props.len(),
            |i: int| (props[i].key@, props[i].value@),
        ),
    decreases props.len(),
{
    let lines = Seq::new(props.len(), |i: int| spec_entry_line(props[i]));
    if props.len() > 0 {
        lemma_rendered_lines_read_back(props.drop_last());
        lemma_entry_line_parses(props.last());
        let sub = Seq::new(props.drop_last().len(), |i: int| spec_entry_line(
            props.drop_last()[i],
        ));
        assert(lines.drop_last() =~~= sub);
        assert(spec_parse_line(lines.last()) == Some((props.last().key@, props.last().value@)));
        assert(spec_parse_lines(lines) =~= spec_parse_lines(sub) + seq![
            (props.last().key@, props.last().value@),
        ]);
    }
}

/// No line holds a newline.
pub open spec fn spec_lines_clean(ls: Seq<Seq<char>>) -> bool {
    forall|i: int, j: int| 0 <= i < ls.len() && 0 <= j < ls[i].len() ==> #[trigger] ls[i][j] != '\n'
}

/// The rendered text is the rendered entry lines joined by newlines, with
/// one empty line closing the final newline.
proof fn lemma_render_is_join(props: Seq<Property>)
    requires
        forall|i: int| 0 <= i < props.len() ==> spec_entry_wf(#[trigger] props[i]),
    ensures
        spec_render_props(props) =~= spec_join_lines(
            Seq::new(props.len(), |i: int| spec_entry_line(props[i])).push(Seq::<char>::empty()),
        ),
    decreases props.len(),
{
    reveal_strlit("\n");
    let lines = Seq::new(props.len(), |i: int| spec_entry_line(props[i]));
    let closed = lines.push(Seq::<char>::empty());
    if props.len() == 0 {
        assert(closed.len() == 1);
        assert(spec_join_lines(closed) == closed[0]);
    } else {
        lemma_render_is_join(props.drop_last());
        let sub = Seq::new(props.drop_last().len(), |i: int| spec_entry_line(
            props.drop_last()[i],
        ));
        let sub_closed = sub.push(Seq::<char>::empty());
        assert(closed.drop_last() =~~= lines);
        assert(spec_join_lines(closed) == spec_join_lines(lines) + "\n"@ + Seq::<char>::empty());
        if props.len() == 1 {
            assert(sub.len() == 0);
            assert(spec_join_lines(sub_closed) == Seq::<char>::empty());
            assert(spec_render_props(props.drop_last()) =~= Seq::<char>::empty());
            assert(spec_join_lines(lines) == lines[0]);
            assert(spec_render_props(props) =~= lines[0] + "\n"@ + Seq::<char>::empty());
        } else {
            assert(lines.drop_last() =~~= sub);
            assert(spec_join_lines(lines) == spec_join_lines(sub) + "\n"@ + lines.last());
            assert(sub_closed.drop_last() =~~= sub);
            assert(sub_closed.len() > 1);
            assert(spec_join_lines(sub_closed) == spec_join_lines(sub) + "\n"@ + Seq::<
                char,
            >::empty());
            assert(spec_render_props(props.drop_last()) =~= spec_join_lines(sub) + "\n"@);
            assert(lines.last() == spec_entry_line(props.last()));
            assert(spec_render_props(props) =~= spec_join_lines(sub) + "\n"@ + lines.last()
                + "\n"@);
        }
    }
}

/// Two cuttings of the same text into newline-free lines joined by
/// newlines are the same cutting.
proof fn lemma_join_lines_injective(a: Seq<Seq<char>>, b: Seq<Seq<char>>)
    requires
        a.len() >= 1,
        b.len() >= 1,
        spec_lines_clean(a),
        spec_lines_clean(b),
        spec_join_lines(a) == spec_join_lines(b),
    ensures
        a =~~= b,
    decreases a.len(),
{
    reveal_strlit("\n");
    assert("\n"@.len() == 1 && "\n"@[0] == '\n');
    let t = spec_join_lines(a);
    if a.len() == 1 && b.len() == 1 {
        assert(a[0] == t && b[0] == t);
    } else if a.len() == 1 {
        // t is a single clean line, yet b's decomposition puts a newline in it
        let jb = spec_join_lines(b.drop_last());
        assert(t == jb + "\n"@ + b.last());
        let p = jb.len() as int;
        assert(t[p] == '\n');
        assert(t == a[0]);
        assert(a[0][p] != '\n');
    } else if b.len() == 1 {
        let ja = spec_join_lines(a.drop_last());
        assert(t == ja + "\n"@ + a.last());
        let p = ja.len() as int;
        assert(t[p] == '\n');
        assert(t == b[0]);
        assert(b[0][p] != '\n');
    } else {
        let ja = spec_join_lines(a.drop_last());
        let jb = spec_join_lines(b.drop_last());
        let la = a.last();
        let lb = b.last();
        assert(t == ja + "\n"@ + la);
        assert(t == jb + "\n"@ + lb);
        assert(ja.len() + 1 + la.len() == jb.len() + 1 + lb.len());
        if la.len() < lb.len() {
            let p = ja.len() as int;
            assert(t[p] == '\n');
            assert(p >= jb.len() + 1);
            assert(t[p] == lb[p - jb.len() - 1]);
            assert(lb[p - jb.len() - 1] != '\n');
        } else if lb.len() < la.len() {
            let p = jb.len() as int;
            assert(t[p] == '\n');
            assert(p >= ja.len() + 1);
            assert(t[p] == la[p - ja.len() - 1]);
            assert(la[p - ja.len() - 1] != '\n');
        } else {
            assert(ja.len() == jb.len());
            assert forall|i: int| 0 <= i < la.len() implies la[i] == lb[i] by {
                assert(t[ja.len() + 1 + i] == la[i]);
                assert(t[jb.len() + 1 + i] == lb[i]);
            }
            assert(la =~= lb);
            assert forall|i: int| 0 <= i < ja.len() implies ja[i] == jb[i] by {
                assert(t[i] == ja[i]);
                assert(t[i] == jb[i]);
            }
            assert(ja =~= jb);
            assert(spec_lines_clean(a.drop_last())) by {
                assert forall|i: int, j: int|
                    0 <= i < a.drop_last().len() && 0 <= j < a.drop_last()[i].len()
                    implies #[trigger] a.drop_last()[i][j] != '\n' by {
                    assert(a.drop_last()[i] == a[i]);
                    assert(a[i][j] != '\n');
                }
            }
            assert(spec_lines_clean(b.drop_last())) by {
                assert forall|i: int, j: int|
                    0 <= i < b.drop_last().len() && 0 <= j < b.drop_last()[i].len()
                    implies #[trigger] b.drop_last()[i][j] != '\n' by {
                    assert(b.drop_last()[i] == b[i]);
                    assert(b[i][j] != '\n');
                }
            }
            lemma_join_lines_injective(a.drop_last(), b.drop_last());
            assert(a =~~= a.drop_last().push(la));
            assert(b =~~= b.drop_last().push(lb));
        }
    }
}

/// Rendering a well-formed property list and reading the text back — cut
/// into newline-free lines joined by newlines, as `split_lines` cuts it,
/// then parsed line by line — yields exactly the original entries.
pub proof fn lemma_render_parse_round_trip(props: Seq<Property>, lines: Seq<Seq<char>>)
    requires
        forall|i: int| 0 <= i < props.len() ==> spec_entry_wf(#[trigger] props[i]),
        lines.len() >= 1,
        spec_lines_clean(lines),
        spec_join_lines(lines) == spec_render_props(props),
    ensures
        spec_parse_lines(lines) =~= Seq::new(props.len(), |i: int| (props[i].key@, props[i].value@)),
{
    reveal_strlit("\n");
    reveal_strlit("=");
    let entry_lines = Seq::new(props.len(), |i: int| spec_entry_line(props[i]));
    let closed = entry_lines.push(Seq::<char>::empty());
    lemma_render_is_join(props);
    assert(spec_lines_clean(closed)) by {
        assert forall|i: int, j: int|
            0 <= i < closed.len() && 0 <= j < closed[i].len() implies #[trigger] closed[i][j]
            != '\n' by {
            if i < props.len() {
                let p = props[i];
                let l = spec_entry_line(p);
                assert(closed[i] == l);
                if j < p.key@.len() {
                    assert(l[j] == p.key@[j]);
                } else if j == p.key@.len() {
                    assert(l[j] == '=');
                } else {
                    assert(l[j] == p.value@[j - p.key@.len() - 1]);
                }
            }
        }
    }
    lemma_join_lines_injective(lines, closed);
    lemma_rendered_lines_read_back(props);
    assert(closed.drop_last() =~~= entry_lines);
    assert(spec_parse_line(Seq::<char>::empty()) is None);
    assert(spec_parse_lines(closed) =~= spec_parse_lines(entry_lines));
    assert(spec_parse_lines(lines) =~= spec_parse_lines(closed));
}

} // verus!
