//! The HTTP request parser of the TCP demo: the first line gives the method
//! and the route, the following lines of the head give the header pairs, and
//! an optional body follows the first blank line. The parser is total:
//! every malformed input is refused with an error, never aborted on.

use vstd::prelude::*;
use crate::frame::push_range;

verus! {

/// How many header pairs a request may carry.
pub const MAX_HEADERS: usize = 16;

/// The position of the first occurrence of byte `c` in `s` at or after `i`.
pub open spec fn find_byte(s: Seq<u8>, i: int, c: u8) -> Option<int>
    decreases s.len() - i when 0 <= i
{
    if i >= s.len() {
        None
    } else if s[i] == c {
        Some(i)
    } else {
        find_byte(s, i + 1, c)
    }
}

/// The position of the first occurrence of the two-byte pattern `c1 c2` in
/// `s` at or after `i`.
pub open spec fn find2(s: Seq<u8>, i: int, c1: u8, c2: u8) -> Option<int>
    decreases s.len() - i when 0 <= i
{
    if i + 1 >= s.len() {
        None
    } else if s[i] == c1 && s[i + 1] == c2 {
        Some(i)
    } else {
        find2(s, i + 1, c1, c2)
    }
}

/// Searching from `p` is searching the suffix that starts at `p`, shifted.
pub proof fn lemma_find_byte_shift(s: Seq<u8>, p: int, c: u8)
    requires
        0 <= p <= s.len(),
    ensures
        find_byte(s, p, c) == match find_byte(s.skip(p), 0, c) {
            Some(j) => Some(p + j),
            None => None::<int>,
        },
    decreases s.len() - p,
{
    let t = s.skip(p);
    if p < s.len() {
        assert(t[0] == s[p]);
        if s[p] != c {
            lemma_find_byte_shift(s, p + 1, c);
            assert(s.skip(p + 1) =~= t.skip(1));
            lemma_find_byte_shift(t, 1, c);
        }
    }
}

/// A line as `lines` yields it: one trailing carriage return stripped.
pub open spec fn strip_cr(l: Seq<u8>) -> Seq<u8> {
    if l.len() > 0 && l[l.len() - 1] == 13 {
        l.subrange(0, l.len() - 1)
    } else {
        l
    }
}

/// The lines of `h`: split at newlines, each with a trailing carriage
/// return stripped, and no empty final piece when `h` ends in a newline.
pub open spec fn lines_of(h: Seq<u8>) -> Seq<Seq<u8>>
    decreases h.len()
{
    if h.len() == 0 {
        Seq::empty()
    } else {
        match find_byte(h, 0, 10) {
            Some(i) => {
                if 0 <= i < h.len() {
                    seq![strip_cr(h.subrange(0, i))] + lines_of(h.subrange(i + 1, h.len() as int))
                } else {
                    Seq::empty()
                }
            },
            None => seq![strip_cr(h)],
        }
    }
}

/// What one header line contributes: skipped when it has no colon, split at
/// the first `": "` into a pair, and refused (outer None) when it has a
/// colon but no `": "`.
pub open spec fn header_of(l: Seq<u8>) -> Option<Option<(Seq<u8>, Seq<u8>)>> {
    if find_byte(l, 0, 58) is None {
        Some(None)
    } else {
        match find2(l, 0, 58, 32) {
            None => None,
            Some(i) => {
                let key = l.subrange(0, i);
                let value = match find2(l, i + 2, 58, 32) {
                    Some(j) => l.subrange(i + 2, j),
                    None => l.subrange(i + 2, l.len() as int),
                };
                Some(Some((key, value)))
            },
        }
    }
}

/// The header pairs of the lines after the first, in order; refused when
/// any line is refused.
pub open spec fn headers_of(ls: Seq<Seq<u8>>) -> Option<Seq<(Seq<u8>, Seq<u8>)>>
    decreases ls.len()
{
    if ls.len() == 0 {
        Some(Seq::empty())
    } else {
        match header_of(ls[0]) {
            None => None,
            Some(None) => headers_of(ls.skip(1)),
            Some(Some(p)) => match headers_of(ls.skip(1)) {
                None => None,
                Some(rest) => Some(seq![p] + rest),
            },
        }
    }
}

/// The head of the request: everything before the first blank line, or the
/// whole input when there is none.
pub open spec fn head_of(s: Seq<u8>) -> Seq<u8> {
    match find2(s, 0, 10, 10) {
        Some(i) => s.subrange(0, i),
        None => s,
    }
}

/// The body: the piece between the first blank line and the next, when a
/// first one exists.
pub open spec fn body_of(s: Seq<u8>) -> Option<Seq<u8>> {
    match find2(s, 0, 10, 10) {
        Some(i) => Some(
            match find2(s, i + 2, 10, 10) {
                Some(j) => s.subrange(i + 2, j),
                None => s.subrange(i + 2, s.len() as int),
            },
        ),
        None => None,
    }
}

/// The mathematical shape of a parsed request.
pub ghost struct RequestModel {
    pub method: Seq<u8>,
    pub route: Seq<u8>,
    pub headers: Seq<(Seq<u8>, Seq<u8>)>,
    pub body: Option<Seq<u8>>,
}

/// What parsing yields: the first line of the head split at spaces into
/// method and route, the remaining lines as header pairs, the body after
/// the blank line. Refused: an empty head, a first line without a space, a
/// refused header line, or more than `MAX_HEADERS` headers.
pub open spec fn request_model(s: Seq<u8>) -> Option<RequestModel> {
    let ls = lines_of(head_of(s));
    if ls.len() == 0 {
        None
    } else {
        let fl = ls[0];
        match find_byte(fl, 0, 32) {
            None => None,
            Some(i) => {
                let method = fl.subrange(0, i);
                let route = match find_byte(fl, i + 1, 32) {
                    Some(j) => fl.subrange(i + 1, j),
                    None => fl.subrange(i + 1, fl.len() as int),
                };
                match headers_of(ls.skip(1)) {
                    None => None,
                    Some(hs) => if hs.len() > MAX_HEADERS {
                        None
                    } else {
                        Some(RequestModel { method, route, headers: hs, body: body_of(s) })
                    },
                }
            },
        }
    }
}

/// A parsed HTTP request.
pub struct Request {
    pub method: Vec<u8>,
    pub route: Vec<u8>,
    pub headers: Vec<(Vec<u8>, Vec<u8>)>,
    pub body: Option<Vec<u8>>,
}

/// The header pairs as byte sequences.
pub open spec fn headers_view(v: Seq<(Vec<u8>, Vec<u8>)>) -> Seq<(Seq<u8>, Seq<u8>)> {
    v.map_values(|p: (Vec<u8>, Vec<u8>)| (p.0@, p.1@))
}

/// What a parsed request states about the bytes it came from.
pub open spec fn request_view(r: Request) -> RequestModel {
    RequestModel {
        method: r.method@,
        route: r.route@,
        headers: headers_view(r.headers@),
        body: match r.body {
            Some(b) => Some(b@),
            None => None,
        },
    }
}

/// Finds the first occurrence of `c` in `s` at or after `from`.
pub fn find_byte_exec(s: &Vec<u8>, from: usize, c: u8) -> (r: Option<usize>)
    requires
        from <= s@.len(),
    ensures
        r matches Some(j) ==> from <= j && (j as int) < s@.len() && s@[j as int] == c && find_byte(
            s@,
            from as int,
            c,
        ) == Some(j as int),
        r is None ==> find_byte(s@, from as int, c) is None,
{
    let n = s.len();
    let mut i: usize = from;
    while i < n
        invariant
            from <= i <= n,
            n == s@.len(),
            find_byte(s@, from as int, c) == find_byte(s@, i as int, c),
        decreases n - i,
    {
        if s[i] == c {
            proof {
                assert(find_byte(s@, i as int, c) == Some(i as int));
            }
            return Some(i);
        }
        i = i + 1;
    }
    proof {
        assert(find_byte(s@, i as int, c) is None);
    }
    None
}

/// Finds the first occurrence of the pattern `c1 c2` in `s` at or after
/// `from`.
pub fn find2_exec(s: &Vec<u8>, from: usize, c1: u8, c2: u8) -> (r: Option<usize>)
    requires
        from <= s@.len(),
    ensures
        r matches Some(j) ==> from <= j && j + 1 < s@.len() && s@[j as int] == c1 && s@[j + 1] == c2
            && find2(s@, from as int, c1, c2) == Some(j as int),
        r is None ==> find2(s@, from as int, c1, c2) is None,
{
    let n = s.len();
    let mut i: usize = from;
    while n - i >= 2
        invariant
            from <= i,
            i <= n,
            n == s@.len(),
            find2(s@, from as int, c1, c2) == find2(s@, i as int, c1, c2),
        decreases n - i,
    {
        if s[i] == c1 && s[i + 1] == c2 {
            proof {
                assert(find2(s@, i as int, c1, c2) == Some(i as int));
            }
            return Some(i);
        }
        i = i + 1;
    }
    proof {
        assert(find2(s@, i as int, c1, c2) is None);
    }
    None
}

impl Request {
    /// Parses a request out of the received bytes. The result is `Ok`
    /// exactly on the inputs the grammar accepts; every malformed input is
    /// refused, never aborted on.
    pub fn from_str(input: &Vec<u8>) -> (r: Result<Request, ()>)
        ensures
            r is Ok <==> request_model(input@) is Some,
            r matches Ok(q) ==> Some(request_view(q)) == request_model(input@),
    {
        let n = input.len();
        let (head_end, body): (usize, Option<Vec<u8>>) = match find2_exec(input, 0, 10, 10) {
            Some(i) => {
                let bstart = i + 2;
                let bend = match find2_exec(input, bstart, 10, 10) {
                    Some(j) => j,
                    None => n,
                };
                let mut b: Vec<u8> = Vec::new();
                push_range(&mut b, input, bstart, bend);
                proof {
                    assert(b@ =~= input@.subrange(i as int + 2, bend as int));
                }
                (i, Some(b))
            },
            None => (n, None),
        };
        proof {
            assert(input@.subrange(0, head_end as int) =~= head_of(input@));
        }
        let mut headv: Vec<u8> = Vec::new();
        push_range(&mut headv, input, 0, head_end);
        proof {
            assert(headv@ =~= head_of(input@));
        }
        let hn = headv.len();
        let mut lines: Vec<Vec<u8>> = Vec::new();
        let mut pos: usize = 0;
        proof {
            assert(lines@.map_values(|l: Vec<u8>| l@) =~= Seq::<Seq<u8>>::empty());
            assert(headv@.skip(0) =~= headv@);
            assert(Seq::<Seq<u8>>::empty() + lines_of(headv@.skip(0)) =~= lines_of(headv@));
        }
        while pos < hn
            invariant
                0 <= pos <= hn,
                hn == headv@.len(),
                lines_of(headv@) == lines@.map_values(|l: Vec<u8>| l@) + lines_of(
                    headv@.skip(pos as int),
                ),
            decreases hn - pos,
        {
            let ghost lines0 = lines@;
            let ghost suffix = headv@.skip(pos as int);
            proof {
                lemma_find_byte_shift(headv@, pos as int, 10);
            }
            match find_byte_exec(&headv, pos, 10) {
                Some(j) => {
                    let mut line: Vec<u8> = Vec::new();
                    if j > pos && headv[j - 1] == 13 {
                        push_range(&mut line, &headv, pos, j - 1);
                    } else {
                        push_range(&mut line, &headv, pos, j);
                    }
                    proof {
                        let jr = j - pos;
                        assert(find_byte(suffix, 0, 10) == Some(jr));
                        assert(suffix.subrange(0, jr) =~= headv@.subrange(pos as int, j as int));
                        assert(line@ =~= strip_cr(suffix.subrange(0, jr)));
                        assert(lines_of(suffix) == seq![strip_cr(suffix.subrange(0, jr))]
                            + lines_of(suffix.subrange(jr + 1, suffix.len() as int)));
                        assert(suffix.subrange(jr + 1, suffix.len() as int) =~= headv@.skip(
                            j as int + 1,
                        ));
                    }
                    lines.push(line);
                    proof {
                        assert(lines@.map_values(|l: Vec<u8>| l@) =~= lines0.map_values(
                            |l: Vec<u8>| l@,
                        ) + seq![strip_cr(suffix.subrange(0, j - pos))]);
                        assert(lines0.map_values(|l: Vec<u8>| l@) + (seq![
                            strip_cr(suffix.subrange(0, j - pos)),
                        ] + lines_of(headv@.skip(j as int + 1))) =~= lines@.map_values(
                            |l: Vec<u8>| l@,
                        ) + lines_of(headv@.skip(j as int + 1)));
                    }
                    pos = j + 1;
                },
                None => {
                    let mut line: Vec<u8> = Vec::new();
                    if hn > pos && headv[hn - 1] == 13 {
                        push_range(&mut line, &headv, pos, hn - 1);
                    } else {
                        push_range(&mut line, &headv, pos, hn);
                    }
                    proof {
                        assert(find_byte(suffix, 0, 10) is None);
                        assert(suffix.len() > 0);
                        assert(suffix.subrange(0, suffix.len() as int) =~= suffix);
                        assert(line@ =~= strip_cr(suffix));
                        assert(lines_of(suffix) == seq![strip_cr(suffix)]);
                    }
                    lines.push(line);
                    proof {
                        assert(lines@.map_values(|l: Vec<u8>| l@) =~= lines0.map_values(
                            |l: Vec<u8>| l@,
                        ) + seq![strip_cr(suffix)]);
                        assert(headv@.skip(hn as int) =~= Seq::<u8>::empty());
                        assert(lines_of(Seq::<u8>::empty()) =~= Seq::<Seq<u8>>::empty());
                        assert(lines0.map_values(|l: Vec<u8>| l@) + (seq![strip_cr(suffix)]
                            + Seq::<Seq<u8>>::empty()) =~= lines@.map_values(|l: Vec<u8>| l@)
                            + Seq::<Seq<u8>>::empty());
                        assert(seq![strip_cr(suffix)] + Seq::<Seq<u8>>::empty() =~= seq![
                            strip_cr(suffix),
                        ]);
                    }
                    pos = hn;
                },
            }
        }
        let ghost lv = lines_of(headv@);
        proof {
            assert(headv@.skip(pos as int) =~= Seq::<u8>::empty());
            assert(lines_of(Seq::<u8>::empty()) =~= Seq::<Seq<u8>>::empty());
            assert(lines@.map_values(|l: Vec<u8>| l@) + Seq::<Seq<u8>>::empty() =~= lines@
                .map_values(|l: Vec<u8>| l@));
            assert(lv == lines@.map_values(|l: Vec<u8>| l@));
        }
        if lines.len() == 0 {
            return Err(());
        }
        let fl = &lines[0];
        proof {
            assert(lv[0] == fl@);
        }
        let sp = match find_byte_exec(fl, 0, 32) {
            Some(i) => i,
            None => { return Err(()) },
        };
        let mut method: Vec<u8> = Vec::new();
        push_range(&mut method, fl, 0, sp);
        let mut route: Vec<u8> = Vec::new();
        match find_byte_exec(fl, sp + 1, 32) {
            Some(j) => push_range(&mut route, fl, sp + 1, j),
            None => push_range(&mut route, fl, sp + 1, fl.len()),
        }
        proof {
            assert(method@ =~= lv[0].subrange(0, sp as int));
            assert(route@ =~= (match find_byte(lv[0], sp as int + 1, 32) {
                Some(j) => lv[0].subrange(sp as int + 1, j),
                None => lv[0].subrange(sp as int + 1, lv[0].len() as int),
            }));
        }
        let mut headers: Vec<(Vec<u8>, Vec<u8>)> = Vec::new();
        let mut k: usize = 1;
        let ln = lines.len();
        proof {
            assert(headers_view(headers@) =~= Seq::<(Seq<u8>, Seq<u8>)>::empty());
            assert(lv.skip(1) =~= lv.skip(1));
            if headers_of(lv.skip(1)) is Some {
                let t = headers_of(lv.skip(1))->Some_0;
                assert(headers_view(headers@) + t =~= t);
            }
        }
        while k < ln
            invariant
                1 <= k <= ln,
                ln == lines@.len(),
                lv == lines@.map_values(|l: Vec<u8>| l@),
                lv == lines_of(head_of(input@)),
                lv.len() > 0,
                find_byte(lv[0], 0, 32) == Some(sp as int),
                headers_of(lv.skip(1)) == (match headers_of(lv.skip(k as int)) {
                    None => None::<Seq<(Seq<u8>, Seq<u8>)>>,
                    Some(rest) => Some(headers_view(headers@) + rest),
                }),
            decreases ln - k,
        {
            let ghost h0 = headers@;
            let ghost tail = lv.skip(k as int);
            let l = &lines[k];
            let llen = l.len();
            proof {
                assert(tail[0] == lv[k as int]);
                assert(lv[k as int] == l@);
                assert(tail.skip(1) =~= lv.skip(k as int + 1));
            }
            match find_byte_exec(l, 0, 58) {
                None => {
                    proof {
                        assert(header_of(tail[0]) == Some(None::<(Seq<u8>, Seq<u8>)>));
                        assert(headers_of(tail) == headers_of(tail.skip(1)));
                    }
                },
                Some(_) => {
                    let ci = match find2_exec(l, 0, 58, 32) {
                        Some(ci) => ci,
                        None => {
                            proof {
                                assert(header_of(tail[0]) is None);
                                assert(headers_of(tail) is None);
                            }
                            return Err(());
                        },
                    };
                    let mut key: Vec<u8> = Vec::new();
                    push_range(&mut key, l, 0, ci);
                    let mut value: Vec<u8> = Vec::new();
                    match find2_exec(l, ci + 2, 58, 32) {
                        Some(j) => push_range(&mut value, l, ci + 2, j),
                        None => push_range(&mut value, l, ci + 2, llen),
                    }
                    proof {
                        assert(key@ =~= l@.subrange(0, ci as int));
                        assert(header_of(tail[0]) == Some(
                            Some(
                                (
                                    l@.subrange(0, ci as int),
                                    match find2(l@, ci as int + 2, 58, 32) {
                                        Some(j) => l@.subrange(ci as int + 2, j),
                                        None => l@.subrange(ci as int + 2, l@.len() as int),
                                    },
                                ),
                            ),
                        ));
                        assert(value@ == header_of(tail[0])->Some_0->Some_0.1);
                    }
                    headers.push((key, value));
                    proof {
                        let p = (key@, value@);
                        assert(headers_view(headers@) =~= headers_view(h0) + seq![p]);
                        assert(headers_of(tail) == (match headers_of(tail.skip(1)) {
                            None => None::<Seq<(Seq<u8>, Seq<u8>)>>,
                            Some(rest) => Some(seq![p] + rest),
                        }));
                        if headers_of(tail.skip(1)) is Some {
                            let rest = headers_of(tail.skip(1))->Some_0;
                            assert(headers_view(h0) + (seq![p] + rest) =~= headers_view(headers@)
                                + rest);
                        }
                    }
                },
            }
            k = k + 1;
        }
        proof {
            assert(lv.skip(k as int) =~= Seq::<Seq<u8>>::empty());
            assert(headers_of(Seq::<Seq<u8>>::empty()) == Some(Seq::<(Seq<u8>, Seq<u8>)>::empty()));
            assert(headers_view(headers@) + Seq::<(Seq<u8>, Seq<u8>)>::empty() =~= headers_view(
                headers@,
            ));
        }
        if headers.len() > MAX_HEADERS {
            return Err(());
        }
        let q = Request { method, route, headers, body };
        proof {
            let model = request_model(input@)->Some_0;
            assert(request_view(q).headers == model.headers);
            assert(request_view(q) == model);
        }
        Ok(q)
    }
}

} // verus!
