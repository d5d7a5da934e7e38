//! Query synthesis: a dotted relation identifier and an ordered field list
//! become the nested remote query text, deterministically and with no I/O.

use vstd::prelude::*;

use crate::json::seq_views;

verus! {

/// Index of the first `.` in `s`, or `s.len()` when none occurs.
pub open spec fn first_dot(s: Seq<char>) -> int
    decreases s.len(),
{
    if s.len() == 0 {
        0
    } else if s[0] == '.' {
        0
    } else {
        1 + first_dot(s.drop_first())
    }
}

proof fn lemma_first_dot_bounds(s: Seq<char>)
    ensures
        0 <= first_dot(s) <= s.len(),
        first_dot(s) < s.len() ==> s[first_dot(s)] == '.',
        forall|j: int| 0 <= j < first_dot(s) ==> s[j] != '.',
    decreases s.len(),
{
    if s.len() > 0 && s[0] != '.' {
        lemma_first_dot_bounds(s.drop_first());
        assert forall|j: int| 0 <= j < first_dot(s) implies s[j] != '.' by {
            if j > 0 {
                assert(s.drop_first()[j - 1] == s[j]);
            }
        }
    }
}

proof fn lemma_first_dot_at(s: Seq<char>, k: int)
    requires
        0 <= k <= s.len(),
        k < s.len() ==> s[k] == '.',
        forall|j: int| 0 <= j < k ==> s[j] != '.',
    ensures
        first_dot(s) == k,
    decreases k,
{
    if s.len() > 0 && k > 0 {
        lemma_first_dot_at(s.drop_first(), k - 1);
    }
}

/// The segments of `s` split on `.`, in order; always at least one segment,
/// and a segment may be empty where dots are adjacent or terminal.
pub open spec fn split_dots(s: Seq<char>) -> Seq<Seq<char>>
    decreases s.len(),
    via split_dots_decreases
{
    if first_dot(s) == s.len() {
        seq![s]
    } else {
        seq![s.take(first_dot(s))] + split_dots(s.skip(first_dot(s) + 1))
    }
}

#[via_fn]
proof fn split_dots_decreases(s: Seq<char>) {
    lemma_first_dot_bounds(s);
}

/// Splitting on a dot at position `b`, with no earlier dot from `a` on.
proof fn lemma_split_step(t: Seq<char>, a: int, b: int)
    requires
        0 <= a <= b < t.len(),
        forall|j: int| a <= j < b ==> t[j] != '.',
        t[b] == '.',
    ensures
        split_dots(t.skip(a)) == seq![t.subrange(a, b)] + split_dots(t.skip(b + 1)),
{
    let u = t.skip(a);
    assert forall|j: int| 0 <= j < b - a implies u[j] != '.' by {
        assert(u[j] == t[j + a]);
    }
    lemma_first_dot_at(u, b - a);
    assert(u.take(b - a) =~= t.subrange(a, b));
    assert(u.skip(b - a + 1) =~= t.skip(b + 1));
}

/// A tail with no dots is one whole segment.
proof fn lemma_split_last(t: Seq<char>, a: int)
    requires
        0 <= a <= t.len(),
        forall|j: int| a <= j < t.len() ==> t[j] != '.',
    ensures
        split_dots(t.skip(a)) == seq![t.skip(a)],
{
    let u = t.skip(a);
    assert forall|j: int| 0 <= j < u.len() implies u[j] != '.' by {
        assert(u[j] == t[j + a]);
    }
    lemma_first_dot_at(u, u.len() as int);
}

/// Splits a relation identifier on `.` into its table path. No escaping
/// exists: an identifier holding a literal dot always splits.
pub fn split_path(s: &str) -> (r: Vec<String>)
    ensures
        seq_views(r@) == split_dots(s@),
        r@.len() > 0,
{
    let n = s.unicode_len();
    let mut r: Vec<String> = Vec::new();
    let mut seg_start: usize = 0;
    let mut i: usize = 0;
    proof {
        assert(s@.skip(0) =~= s@);
        assert(seq_views(r@) =~= Seq::<Seq<char>>::empty());
        assert(seq_views(r@) + split_dots(s@) =~= split_dots(s@));
    }
    while i < n
        invariant
            n == s@.len(),
            0 <= seg_start as int <= i as int <= n,
            forall|j: int| seg_start <= j < i ==> s@[j] != '.',
            split_dots(s@) =~= seq_views(r@) + split_dots(s@.skip(seg_start as int)),
        decreases n - i,
    {
        let c = s.get_char(i);
        if c == '.' {
            let seg = s.substring_char(seg_start, i);
            let seg_string = String::from_str(seg);
            proof {
                lemma_split_step(s@, seg_start as int, i as int);
                assert(seq_views(r@.push(seg_string)) =~= seq_views(r@) + seq![s@.subrange(
                    seg_start as int,
                    i as int,
                )]);
                assert(seq_views(r@) + (seq![s@.subrange(seg_start as int, i as int)]
                    + split_dots(s@.skip(i as int + 1))) =~= (seq_views(r@) + seq![s@.subrange(
                    seg_start as int,
                    i as int,
                )]) + split_dots(s@.skip(i as int + 1)));
                assert(split_dots(s@) =~= seq_views(r@.push(seg_string)) + split_dots(
                    s@.skip(i as int + 1),
                ));
            }
            r.push(seg_string);
            seg_start = i + 1;
        }
        i += 1;
    }
    let seg = s.substring_char(seg_start, n);
    let seg_string = String::from_str(seg);
    proof {
        lemma_split_last(s@, seg_start as int);
        assert(seq_views(r@.push(seg_string)) =~= seq_views(r@) + seq![s@.skip(
            seg_start as int,
        )]);
        assert(seq_views(r@.push(seg_string)) =~= split_dots(s@));
    }
    r.push(seg_string);
    r
}

/// One opening selection per path segment: `p1{` `p2{` ... in order.
pub open spec fn opens_text(path: Seq<Seq<char>>) -> Seq<char>
    decreases path.len(),
{
    if path.len() == 0 {
        Seq::empty()
    } else {
        path[0] + "{"@ + opens_text(path.drop_first())
    }
}

/// The innermost selection: a space, then the field, for each field in order.
pub open spec fn fields_text(fields: Seq<Seq<char>>) -> Seq<char>
    decreases fields.len(),
{
    if fields.len() == 0 {
        Seq::empty()
    } else {
        " "@ + fields[0] + fields_text(fields.drop_first())
    }
}

/// `n` closing braces, each preceded by a space.
pub open spec fn closes_text(n: nat) -> Seq<char>
    decreases n,
{
    if n == 0 {
        Seq::<char>::empty()
    } else {
        " }"@ + closes_text((n - 1) as nat)
    }
}

/// The full remote query text for a table path and field list: the outer
/// selection, one nested selection per segment, the fields verbatim in
/// order, and every brace closed again.
pub open spec fn gql_text(path: Seq<Seq<char>>, fields: Seq<Seq<char>>) -> Seq<char> {
    "{ "@ + opens_text(path) + fields_text(fields) + closes_text(path.len() + 1)
}

proof fn lemma_opens_snoc(path: Seq<Seq<char>>, x: Seq<char>)
    ensures
        opens_text(path.push(x)) =~= opens_text(path) + x + "{"@,
    decreases path.len(),
{
    let p = path.push(x);
    if path.len() == 0 {
        assert(p[0] == x);
        assert(p.drop_first() =~= Seq::<Seq<char>>::empty());
        assert(opens_text(p) == x + "{"@ + opens_text(Seq::<Seq<char>>::empty()));
        assert(opens_text(p) =~= opens_text(path) + x + "{"@);
    } else {
        assert(p.drop_first() =~= path.drop_first().push(x));
        lemma_opens_snoc(path.drop_first(), x);
        assert(p[0] == path[0]);
        assert(opens_text(p) == path[0] + "{"@ + opens_text(path.drop_first().push(x)));
        assert(opens_text(path.drop_first().push(x)) == opens_text(path.drop_first()) + x
            + "{"@);
        assert(opens_text(p) =~= opens_text(path) + x + "{"@);
    }
}

proof fn lemma_fields_snoc(fields: Seq<Seq<char>>, x: Seq<char>)
    ensures
        fields_text(fields.push(x)) =~= fields_text(fields) + " "@ + x,
    decreases fields.len(),
{
    let p = fields.push(x);
    if fields.len() == 0 {
        assert(p[0] == x);
        assert(p.drop_first() =~= Seq::<Seq<char>>::empty());
        assert(fields_text(p) == " "@ + x + fields_text(Seq::<Seq<char>>::empty()));
        assert(fields_text(p) =~= fields_text(fields) + " "@ + x);
    } else {
        assert(p.drop_first() =~= fields.drop_first().push(x));
        lemma_fields_snoc(fields.drop_first(), x);
        assert(p[0] == fields[0]);
        assert(fields_text(p) == " "@ + fields[0] + fields_text(fields.drop_first().push(x)));
        assert(fields_text(fields.drop_first().push(x)) == fields_text(fields.drop_first())
            + " "@ + x);
        assert(fields_text(p) =~= fields_text(fields) + " "@ + x);
    }
}

proof fn lemma_closes_snoc(n: nat)
    ensures
        closes_text(n + 1) =~= closes_text(n) + " }"@,
    decreases n,
{
    if n > 0 {
        lemma_closes_snoc((n - 1) as nat);
    }
}

/// Builds the remote query text from an already-split table path.
pub fn build_query_from_path(path: &Vec<String>, fields: &Vec<String>) -> (r: String)
    ensures
        r@ == gql_text(seq_views(path@), seq_views(fields@)),
{
    let mut s = String::from_str("{ ");
    let mut i: usize = 0;
    while i < path.len()
        invariant
            0 <= i as int <= path@.len(),
            s@ =~= "{ "@ + opens_text(seq_views(path@.take(i as int))),
        decreases path@.len() - i,
    {
        proof {
            assert(seq_views(path@.take(i as int + 1)) =~= seq_views(path@.take(i as int)).push(
                path@[i as int]@,
            ));
            lemma_opens_snoc(seq_views(path@.take(i as int)), path@[i as int]@);
        }
        s.append(path[i].as_str());
        s.append("{");
        i += 1;
    }
    proof {
        assert(path@.take(path@.len() as int) =~= path@);
    }
    let mut k: usize = 0;
    while k < fields.len()
        invariant
            0 <= k as int <= fields@.len(),
            s@ =~= "{ "@ + opens_text(seq_views(path@)) + fields_text(
                seq_views(fields@.take(k as int)),
            ),
        decreases fields@.len() - k,
    {
        proof {
            assert(seq_views(fields@.take(k as int + 1)) =~= seq_views(
                fields@.take(k as int),
            ).push(fields@[k as int]@));
            lemma_fields_snoc(seq_views(fields@.take(k as int)), fields@[k as int]@);
        }
        s.append(" ");
        s.append(fields[k].as_str());
        k += 1;
    }
    proof {
        assert(fields@.take(fields@.len() as int) =~= fields@);
    }
    let mut c: usize = 0;
    while c < path.len()
        invariant
            0 <= c as int <= path@.len(),
            s@ =~= "{ "@ + opens_text(seq_views(path@)) + fields_text(seq_views(fields@))
                + closes_text(c as nat),
        decreases path@.len() - c,
    {
        proof {
            lemma_closes_snoc(c as nat);
        }
        s.append(" }");
        c += 1;
    }
    proof {
        lemma_closes_snoc(path@.len());
    }
    s.append(" }");
    proof {
        assert(s@ =~= gql_text(seq_views(path@), seq_views(fields@)));
    }
    s
}

/// Occurrences of `c` in `s`.
pub open spec fn count_char(s: Seq<char>, c: char) -> int
    decreases s.len(),
{
    if s.len() == 0 {
        0
    } else {
        (if s[0] == c {
            1int
        } else {
            0int
        }) + count_char(s.drop_first(), c)
    }
}

proof fn lemma_count_char_add(a: Seq<char>, b: Seq<char>, c: char)
    ensures
        count_char(a + b, c) == count_char(a, c) + count_char(b, c),
    decreases a.len(),
{
    if a.len() == 0 {
        assert(a + b =~= b);
    } else {
        assert((a + b)[0] == a[0]);
        assert((a + b).drop_first() =~= a.drop_first() + b);
        lemma_count_char_add(a.drop_first(), b, c);
    }
}

proof fn lemma_brace_literal_counts()
    ensures
        count_char("{"@, '{') == 1,
        count_char("{"@, '}') == 0,
        count_char(" "@, '{') == 0,
        count_char(" "@, '}') == 0,
        count_char(" }"@, '{') == 0,
        count_char(" }"@, '}') == 1,
        count_char("{ "@, '{') == 1,
        count_char("{ "@, '}') == 0,
{
    reveal_strlit("{");
    reveal_strlit(" ");
    reveal_strlit(" }");
    reveal_strlit("{ ");
    assert(count_char(Seq::<char>::empty(), '{') == 0);
    assert(count_char(Seq::<char>::empty(), '}') == 0);
    assert("{"@.drop_first() =~= Seq::<char>::empty());
    assert(" "@.drop_first() =~= Seq::<char>::empty());
    assert(" }"@.drop_first().drop_first() =~= Seq::<char>::empty());
    assert(count_char(" }"@.drop_first(), '{') == 0);
    assert(count_char(" }"@.drop_first(), '}') == 1);
    assert("{ "@.drop_first().drop_first() =~= Seq::<char>::empty());
    assert(count_char("{ "@.drop_first(), '{') == 0);
    assert(count_char("{ "@.drop_first(), '}') == 0);
}

proof fn lemma_opens_braces(path: Seq<Seq<char>>)
    requires
        forall|i: int|
            0 <= i < path.len() ==> count_char(path[i], '{') == 0 && count_char(path[i], '}')
                == 0,
    ensures
        count_char(opens_text(path), '{') == path.len(),
        count_char(opens_text(path), '}') == 0,
    decreases path.len(),
{
    lemma_brace_literal_counts();
    if path.len() > 0 {
        lemma_opens_braces(path.drop_first());
        lemma_count_char_add(path[0], "{"@, '{');
        lemma_count_char_add(path[0] + "{"@, opens_text(path.drop_first()), '{');
        lemma_count_char_add(path[0], "{"@, '}');
        lemma_count_char_add(path[0] + "{"@, opens_text(path.drop_first()), '}');
    }
}

proof fn lemma_fields_braces(fields: Seq<Seq<char>>)
    requires
        forall|i: int|
            0 <= i < fields.len() ==> count_char(fields[i], '{') == 0 && count_char(
                fields[i],
                '}',
            ) == 0,
    ensures
        count_char(fields_text(fields), '{') == 0,
        count_char(fields_text(fields), '}') == 0,
    decreases fields.len(),
{
    lemma_brace_literal_counts();
    if fields.len() > 0 {
        lemma_fields_braces(fields.drop_first());
        lemma_count_char_add(" "@, fields[0], '{');
        lemma_count_char_add(" "@ + fields[0], fields_text(fields.drop_first()), '{');
        lemma_count_char_add(" "@, fields[0], '}');
        lemma_count_char_add(" "@ + fields[0], fields_text(fields.drop_first()), '}');
    }
}

proof fn lemma_closes_braces(n: nat)
    ensures
        count_char(closes_text(n), '{') == 0,
        count_char(closes_text(n), '}') == n,
    decreases n,
{
    lemma_brace_literal_counts();
    if n > 0 {
        lemma_closes_braces((n - 1) as nat);
        lemma_count_char_add(" }"@, closes_text((n - 1) as nat), '{');
        lemma_count_char_add(" }"@, closes_text((n - 1) as nat), '}');
    }
}

/// Law: when no path segment or field name carries a brace of its own, the
/// query text holds exactly one opening and one closing brace per path
/// segment, plus the single outer selection pair.
pub proof fn lemma_query_brace_count(path: Seq<Seq<char>>, fields: Seq<Seq<char>>)
    requires
        forall|i: int|
            0 <= i < path.len() ==> count_char(path[i], '{') == 0 && count_char(path[i], '}')
                == 0,
        forall|i: int|
            0 <= i < fields.len() ==> count_char(fields[i], '{') == 0 && count_char(
                fields[i],
                '}',
            ) == 0,
    ensures
        count_char(gql_text(path, fields), '{') == path.len() + 1,
        count_char(gql_text(path, fields), '}') == path.len() + 1,
{
    lemma_brace_literal_counts();
    lemma_opens_braces(path);
    lemma_fields_braces(fields);
    lemma_closes_braces(path.len() + 1);
    lemma_count_char_add("{ "@, opens_text(path), '{');
    lemma_count_char_add("{ "@ + opens_text(path), fields_text(fields), '{');
    lemma_count_char_add(
        "{ "@ + opens_text(path) + fields_text(fields),
        closes_text(path.len() + 1),
        '{',
    );
    lemma_count_char_add("{ "@, opens_text(path), '}');
    lemma_count_char_add("{ "@ + opens_text(path), fields_text(fields), '}');
    lemma_count_char_add(
        "{ "@ + opens_text(path) + fields_text(fields),
        closes_text(path.len() + 1),
        '}',
    );
}

/// Law: the innermost selection of the query text is exactly the field
/// names, verbatim and in input order, each preceded by one space.
pub proof fn lemma_query_fields_verbatim(path: Seq<Seq<char>>, fields: Seq<Seq<char>>)
    ensures
        ({
            let pre = "{ "@ + opens_text(path);
            gql_text(path, fields).subrange(
                pre.len() as int,
                pre.len() + fields_text(fields).len() as int,
            ) =~= fields_text(fields)
        }),
{
    let pre = "{ "@ + opens_text(path);
    let g = gql_text(path, fields);
    assert(g.subrange(pre.len() as int, pre.len() + fields_text(fields).len() as int) =~= fields_text(
        fields,
    ));
}

/// Where field `k` starts inside the innermost selection text: after one
/// space and each earlier field with its own leading space.
pub open spec fn field_offset(fields: Seq<Seq<char>>, k: int) -> int
    decreases k,
{
    if k <= 0 {
        1
    } else {
        1 + fields[0].len() + field_offset(fields.drop_first(), k - 1)
    }
}

/// Law: each field name stands verbatim at its own offset inside the
/// innermost selection, and the offsets grow with the field's position, so
/// the fields appear in input order.
pub proof fn lemma_fields_in_order(fields: Seq<Seq<char>>, k: int)
    requires
        0 <= k < fields.len(),
    ensures
        1 <= field_offset(fields, k),
        field_offset(fields, k) + fields[k].len() <= fields_text(fields).len(),
        fields_text(fields).subrange(
            field_offset(fields, k),
            field_offset(fields, k) + fields[k].len() as int,
        ) =~= fields[k],
        k >= 1 ==> field_offset(fields, k) == field_offset(fields, k - 1) + fields[k
            - 1].len() + 1,
    decreases k,
{
    reveal_strlit(" ");
    let t = fields_text(fields);
    if k == 0 {
        assert(t =~= " "@ + fields[0] + fields_text(fields.drop_first()));
        assert(t.subrange(1, 1 + fields[0].len() as int) =~= fields[0]);
    } else {
        lemma_fields_in_order(fields.drop_first(), k - 1);
        let d = fields.drop_first();
        let shift: int = 1 + fields[0].len() as int;
        assert(d[k - 1] == fields[k]);
        assert(field_offset(fields, k) == shift + field_offset(d, k - 1));
        assert forall|j: int|
            0 <= j < fields_text(d).len() implies t[shift + j] == fields_text(d)[j] by {}
        assert(t.subrange(
            field_offset(fields, k),
            field_offset(fields, k) + fields[k].len() as int,
        ) =~= fields_text(d).subrange(
            field_offset(d, k - 1),
            field_offset(d, k - 1) + d[k - 1].len() as int,
        ));
        if k == 1 {
            assert(field_offset(fields, k - 1) == 1);
            assert(field_offset(d, 0) == 1);
        } else {
            assert(field_offset(fields, k - 1) == shift + field_offset(d, k - 2));
            assert(d[k - 2] == fields[k - 1]);
        }
    }
}

/// Translates a dotted relation identifier and field list into the remote
/// query text: path `a.b` with fields `x`, `y` gives `{ a{ b{ x y } } }`.
/// Names pass through unescaped and unvalidated; the caller must supply
/// identifiers valid in the remote query language.
pub fn build_gql_query(relname: &str, fields: &Vec<String>) -> (r: String)
    ensures
        r@ == gql_text(split_dots(relname@), seq_views(fields@)),
{
    let path = split_path(relname);
    build_query_from_path(&path, fields)
}

} // verus!
