use vstd::prelude::*;
use crate::json_text::{
    decimal, json_usize_value, json_usize_text, json_usize_parse, lemma_decimal,
    lemma_json_usize_of_decimal, lemma_json_usize_no_comma,
};

verus! {

/// A point of the plane with natural coordinates.
#[derive(Debug, Clone, Copy, PartialEq, Eq, Structural)]
pub struct Point {
    pub x: usize,
    pub y: usize,
}

/// The text that opens the JSON object of a point: `{"x":`.
pub open spec fn json_open_x() -> Seq<char> {
    seq!['{', '"', 'x', '"', ':']
}

/// The text between the two coordinates: `,"y":`.
pub open spec fn json_sep_y() -> Seq<char> {
    seq![',', '"', 'y', '"', ':']
}

/// The compact JSON text of a point, fields in declaration order, as serde_json
/// writes a struct with fields `x` and `y`: `{"x":1,"y":2}`.
pub open spec fn point_json(p: Point) -> Seq<char> {
    json_open_x() + decimal(p.x as nat) + json_sep_y() + decimal(p.y as nat) + seq!['}']
}

/// `t` is the JSON object `{"x":X,"y":Y}` whose separator `,"y":` starts at
/// index `k`, where `X` and `Y` are JSON numbers (possibly padded with JSON
/// whitespace) denoting `p.x` and `p.y`.
pub open spec fn is_point_json_at(t: Seq<char>, k: int, p: Point) -> bool {
    &&& 5 <= k
    &&& k + 6 <= t.len()
    &&& t.take(5) == json_open_x()
    &&& t.subrange(k, k + 5) == json_sep_y()
    &&& t.last() == '}'
    &&& json_usize_value(t.subrange(5, k)) == Some(p.x)
    &&& json_usize_value(t.subrange(k + 5, t.len() - 1)) == Some(p.y)
}

/// The point that the JSON text `t` denotes, if it is such an object.
pub open spec fn parse_point_json(t: Seq<char>) -> Option<Point> {
    if exists|k: int, p: Point| is_point_json_at(t, k, p) {
        let (k, p) = choose|k: int, p: Point| is_point_json_at(t, k, p);
        Some(p)
    } else {
        None
    }
}

/// A text denotes at most one point, and its separator stands at one place.
pub proof fn lemma_point_json_unique(t: Seq<char>, k1: int, p1: Point, k2: int, p2: Point)
    requires
        is_point_json_at(t, k1, p1),
        is_point_json_at(t, k2, p2),
    ensures
        k1 == k2,
        p1 == p2,
{
    assert(t[k1] == t.subrange(k1, k1 + 5)[0]);
    assert(t[k2] == t.subrange(k2, k2 + 5)[0]);
    if k1 < k2 {
        lemma_json_usize_no_comma(t.subrange(5, k2));
        assert(t.subrange(5, k2)[k1 - 5] == t[k1]);
    } else if k2 < k1 {
        lemma_json_usize_no_comma(t.subrange(5, k1));
        assert(t.subrange(5, k1)[k2 - 5] == t[k2]);
    }
}

/// The JSON text of a point is read back as that point.
pub proof fn lemma_point_json_roundtrip(p: Point)
    ensures
        parse_point_json(point_json(p)) == Some(p),
{
    let t = point_json(p);
    let dx = decimal(p.x as nat);
    let dy = decimal(p.y as nat);
    let k: int = 5 + dx.len() as int;
    lemma_decimal(p.x as nat);
    lemma_decimal(p.y as nat);
    lemma_json_usize_of_decimal(p.x);
    lemma_json_usize_of_decimal(p.y);
    assert(t.take(5) =~= json_open_x());
    assert(t.subrange(5, k) =~= dx);
    assert(t.subrange(k, k + 5) =~= json_sep_y());
    assert(t.subrange(k + 5, t.len() - 1) =~= dy);
    assert(is_point_json_at(t, k, p));
    let (k2, p2) = choose|k2: int, p2: Point| is_point_json_at(t, k2, p2);
    lemma_point_json_unique(t, k, p, k2, p2);
}


/// The JSON text of a point is `{"x":`, the decimal digits of `x`, `,"y":`,
/// the decimal digits of `y`, and `}`, with no whitespace anywhere.
pub proof fn lemma_point_json_layout(p: Point)
    ensures
        point_json(p) == seq!['{', '"', 'x', '"', ':'] + decimal(p.x as nat) + seq![',', '"', 'y', '"', ':'] + decimal(p.y as nat) + seq!['}'],
{
}

/// The compact text `{"x":A,"y":B}` of any two `usize` values `A` and `B`
/// is read as the point `(A, B)`.
pub proof fn lemma_compact_point_text_parses(a: usize, b: usize)
    ensures
        parse_point_json(seq!['{', '"', 'x', '"', ':'] + decimal(a as nat) + seq![',', '"', 'y', '"', ':'] + decimal(b as nat) + seq!['}']) == Some(Point { x: a, y: b }),
{
    let t = seq!['{', '"', 'x', '"', ':'] + decimal(a as nat) + seq![',', '"', 'y', '"', ':'] + decimal(b as nat) + seq!['}'];
    let p = Point { x: a, y: b };
    let dx = decimal(a as nat);
    let dy = decimal(b as nat);
    let k: int = 5 + dx.len() as int;
    lemma_decimal(a as nat);
    lemma_decimal(b as nat);
    lemma_json_usize_of_decimal(a);
    lemma_json_usize_of_decimal(b);
    assert(t.take(5) =~= json_open_x());
    assert(t.subrange(5, k) =~= dx);
    assert(t.subrange(k, k + 5) =~= json_sep_y());
    assert(t.subrange(k + 5, t.len() - 1) =~= dy);
    assert(is_point_json_at(t, k, p));
    let (k2, p2) = choose|k2: int, p2: Point| is_point_json_at(t, k2, p2);
    lemma_point_json_unique(t, k, p, k2, p2);
}

/// Whether the characters of `s` from index `at` on spell `pat`.
fn text_matches_at(s: &str, n: usize, at: usize, pat: &[char]) -> (res: bool)
    requires
        n == s@.len(),
        at + pat@.len() <= n,
    ensures
        res == (s@.subrange(at as int, at + pat@.len()) == pat@),
{
    let mut i: usize = 0;
    while i < pat.len()
        invariant
            n == s@.len(),
            at + pat@.len() <= n,
            i <= pat@.len(),
            s@.subrange(at as int, at + i) == pat@.take(i as int),
        decreases pat@.len() - i,
    {
        if s.get_char(at + i) != pat[i] {
            assert(s@.subrange(at as int, at + pat@.len())[i as int] == s@[at + i]);
            return false;
        }
        assert(s@.subrange(at as int, at + i + 1) =~= pat@.take(i + 1));
        i = i + 1;
    }
    assert(pat@.take(pat@.len() as int) =~= pat@);
    true
}

impl Point {
    /// The JSON text of this point, `{"x":X,"y":Y}`, with the coordinates
    /// written by serde_json.
    pub fn to_json(&self) -> (res: String)
        ensures
            res@ == point_json(*self),
            res@ == seq!['{', '"', 'x', '"', ':'] + decimal(self.x as nat) + seq![',', '"', 'y', '"', ':'] + decimal(self.y as nat) + seq!['}'],
    {
        let mut text = String::from_str("{\"x\":");
        proof {
            reveal_strlit("{\"x\":");
            assert("{\"x\":"@ =~= json_open_x());
        }
        let x_text = json_usize_text(self.x);
        text.append(x_text.as_str());
        let sep = ",\"y\":";
        proof {
            reveal_strlit(",\"y\":");
            assert(sep@ =~= json_sep_y());
        }
        text.append(sep);
        let y_text = json_usize_text(self.y);
        text.append(y_text.as_str());
        let close = "}";
        proof {
            reveal_strlit("}");
            assert(close@ =~= seq!['}']);
        }
        text.append(close);
        proof {
            lemma_point_json_layout(*self);
        }
        text
    }

    /// The point that the JSON text `s` denotes: the object `{"x":X,"y":Y}`,
    /// keys in this order and no whitespace but around the numbers, where
    /// serde_json reads `X` and `Y` as `usize` values. `None` for any other text.
    pub fn from_json(s: &str) -> (res: Option<Point>)
        ensures
            res == parse_point_json(s@),
            forall|a: usize, b: usize|
                #![trigger decimal(a as nat), decimal(b as nat)]
                s@ == seq!['{', '"', 'x', '"', ':'] + decimal(a as nat) + seq![',', '"', 'y', '"', ':'] + decimal(b as nat) + seq!['}'] ==> res == Some(Point { x: a, y: b }),
    {
        let ghost t = s@;
        proof {
            assert forall|a: usize, b: usize|
                #![trigger decimal(a as nat), decimal(b as nat)]
                t == seq!['{', '"', 'x', '"', ':'] + decimal(a as nat) + seq![',', '"', 'y', '"', ':'] + decimal(b as nat) + seq!['}'] implies parse_point_json(t) == Some(Point { x: a, y: b }) by {
                lemma_compact_point_text_parses(a, b);
            }
        }
        let n = s.unicode_len();
        if n < 11 {
            return None;
        }
        let open = ['{', '"', 'x', '"', ':'];
        assert(open@ =~= json_open_x());
        if !text_matches_at(s, n, 0, &open) || s.get_char(n - 1) != '}' {
            assert forall|k2: int, p2: Point| !is_point_json_at(t, k2, p2) by {
                assert(t.subrange(0, 5) =~= t.take(5));
            }
            return None;
        }
        let mut k: usize = 5;
        while k < n && s.get_char(k) != ','
            invariant
                5 <= k <= n,
                n == t.len(),
                t == s@,
                forall|j: int| 5 <= j < k ==> t[j] != ',',
            decreases n - k,
        {
            k = k + 1;
        }
        let sep = [',', '"', 'y', '"', ':'];
        assert(sep@ =~= json_sep_y());
        if n - k < 6 || !text_matches_at(s, n, k, &sep) {
            assert forall|k2: int, p2: Point| !is_point_json_at(t, k2, p2) by {
                if is_point_json_at(t, k2, p2) {
                    assert(t[k2] == t.subrange(k2, k2 + 5)[0]);
                    if k2 > k {
                        lemma_json_usize_no_comma(t.subrange(5, k2));
                        assert(t.subrange(5, k2)[k - 5] == t[k as int]);
                    }
                }
            }
            return None;
        }
        let x_text = s.substring_char(5, k);
        let y_text = s.substring_char(k + 5, n - 1);
        let parsed_x = json_usize_parse(x_text);
        let parsed_y = json_usize_parse(y_text);
        match (parsed_x, parsed_y) {
            (Some(x), Some(y)) => {
                let p = Point { x, y };
                proof {
                    assert(t.subrange(0, 5) =~= t.take(5));
                    assert(is_point_json_at(t, k as int, p));
                    let (k2, p2) = choose|k2: int, p2: Point| is_point_json_at(t, k2, p2);
                    lemma_point_json_unique(t, k as int, p, k2, p2);
                }
                Some(p)
            },
            _ => {
                assert forall|k2: int, p2: Point| !is_point_json_at(t, k2, p2) by {
                    if is_point_json_at(t, k2, p2) {
                        assert(t[k2] == t.subrange(k2, k2 + 5)[0]);
                        if k2 > k {
                            lemma_json_usize_no_comma(t.subrange(5, k2));
                            assert(t.subrange(5, k2)[k - 5] == t[k as int]);
                        }
                    }
                }
                None
            },
        }
    }
}

/// What the serde demonstration shows: the JSON text of a point, and the point
/// read back from that text.
#[derive(Debug)]
pub struct SerdeDemo {
    pub serialized: String,
    pub deserialized: Point,
}

/// Writes the point `(x_coord, y_coord)` as JSON and reads it back; the text
/// always reads back as the same point.
pub fn serde_demo(x_coord: usize, y_coord: usize) -> (res: SerdeDemo)
    ensures
        res.serialized@ == point_json(Point { x: x_coord, y: y_coord }),
        res.deserialized == (Point { x: x_coord, y: y_coord }),
{
    let point = Point { x: x_coord, y: y_coord };
    let serialized = point.to_json();
    proof {
        lemma_point_json_roundtrip(point);
    }
    match Point::from_json(serialized.as_str()) {
        Some(deserialized) => SerdeDemo { serialized, deserialized },
        None => {
            proof {
                assert(false);
            }
            SerdeDemo { serialized, deserialized: point }
        },
    }
}

} // verus!
