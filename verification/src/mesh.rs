//! What a mesh is built from, besides the float coordinates themselves:
//! which coordinates an `.obj` keeps constant, which vertices lie on the
//! boundary of a plane mesh, the triangles that turn a line of vertices into
//! a bar, and where each value of a vertex (six entries: position and colour)
//! sits in the flat vertex array.
use vstd::prelude::*;
use crate::error::Error;
use crate::numbers::is_digit;
use crate::obj::{FaceLine, FaceParse, face_line_spec, face_error_spec, parse_face_line};
use crate::text::chars_of;

verus! {

/// How many dimensions a mesh has, which decides the checks made on it.
#[derive(Debug, Clone, Copy, PartialEq, Eq, Structural)]
pub enum MeshDimension {
    /// A line: two of the three coordinates are constant over the mesh.
    One,
    /// A plane figure: one coordinate is constant over the mesh.
    Two,
    /// A body: no check on the coordinates.
    Three,
}

/// Which kind of simulation a mesh is meant for.
#[derive(Debug, Clone, Copy, PartialEq, Eq, Structural)]
pub enum Dimension {
    /// Three dimensions.
    D3,
    /// Two dimensions.
    D2,
}

/// What a mesh is built from: the location of its `.obj`, its dimension and,
/// optionally, a file with the body drawn at each vertex.
#[derive(Debug)]
pub struct MeshBuilder {
    location: String,
    dimension: MeshDimension,
    vertex_body: Option<String>,
}

impl MeshBuilder {
    /// The location of the `.obj`.
    pub closed spec fn location_spec(&self) -> Seq<char> {
        self.location@
    }

    /// The dimension of the mesh.
    pub closed spec fn dimension_spec(&self) -> MeshDimension {
        self.dimension
    }

    /// The file with the body drawn at each vertex, if one was given.
    pub closed spec fn vertex_body_spec(&self) -> Option<Seq<char>> {
        match self.vertex_body {
            Some(b) => Some(b@),
            None => None,
        }
    }

    /// A builder for the mesh in `location`, of the given dimension, with no
    /// vertex body.
    pub fn new(location: &str, dimension: MeshDimension) -> (res: MeshBuilder)
        ensures
            res.location_spec() == location@,
            res.dimension_spec() == dimension,
            res.vertex_body_spec() == None::<Seq<char>>,
    {
        MeshBuilder { location: String::from_str(location), dimension, vertex_body: None }
    }

    /// The same builder, drawing `vertex_body` at each vertex.
    pub fn with_vertex_body(self, vertex_body: &str) -> (res: MeshBuilder)
        ensures
            res.location_spec() == self.location_spec(),
            res.dimension_spec() == self.dimension_spec(),
            res.vertex_body_spec() == Some(vertex_body@),
    {
        MeshBuilder { vertex_body: Some(String::from_str(vertex_body)), ..self }
    }

    /// The location of the `.obj`.
    pub fn location(&self) -> (res: &str)
        ensures
            res@ == self.location_spec(),
    {
        self.location.as_str()
    }

    /// The dimension of the mesh.
    pub fn dimension(&self) -> (res: MeshDimension)
        ensures
            res == self.dimension_spec(),
    {
        self.dimension
    }

    /// Checks a face line `f a/b/c a/b/c a/b/c`: it must hold three fields,
    /// each of the form `a/b/c` with a vertex index `a`; gives the three
    /// vertex indices counted from zero. A line naming vertex 0 has no
    /// zero-based index and is left out.
    pub fn obj_face_checker(line: &str) -> (res: Result<Vec<u32>, Error>)
        requires
            !(face_line_spec(line@) is ZeroIndex),
        ensures
            match res {
                Ok(v) => face_line_spec(line@) == FaceLine::Faces(v@),
                Err(e) => face_error_spec(face_line_spec(line@), e),
            },
    {
        match parse_face_line(line) {
            FaceParse::Faces(v) => Ok(v),
            FaceParse::Invalid(e) => Err(e),
            FaceParse::ZeroIndex => vstd::pervasive::unreached(),
        }
    }
}

/// The digits of a coordinate text after an optional leading sign.
pub open spec fn unsigned_part(t: Seq<char>) -> Seq<char> {
    if t.len() > 0 && (t[0] == '-' || t[0] == '+') {
        t.drop_first()
    } else {
        t
    }
}

/// Whether `c` may stand in the digits of a zero: `0` or `.`.
pub open spec fn is_zero_char(c: char) -> bool {
    c == '0' || c == '.'
}

/// How many characters at the start of `r` are `0` or `.`.
pub open spec fn mantissa_len(r: Seq<char>) -> nat
    decreases r.len(),
{
    if r.len() == 0 || !is_zero_char(r[0]) {
        0
    } else {
        1 + mantissa_len(r.drop_first())
    }
}

/// Whether `m` writes zero without sign or exponent: only `0` digits and at
/// most one `.`, with at least one digit (`0`, `0.0`, `0.000`, `.0`).
pub open spec fn is_zero_mantissa(m: Seq<char>) -> bool {
    &&& m.contains('0')
    &&& forall|i: int| 0 <= i < m.len() ==> #[trigger] is_zero_char(m[i])
    &&& forall|i: int, j: int| 0 <= i < j < m.len() && #[trigger] m[i] == '.' ==> #[trigger] m[j] != '.'
}

/// Whether `x` is empty or a decimal exponent: `e` or `E`, an optional sign
/// and one or more ASCII digits.
pub open spec fn exponent_ok(x: Seq<char>) -> bool {
    x.len() == 0 || (x.len() >= 2 && (x[0] == 'e' || x[0] == 'E') && all_digits(exponent_digits(x)))
}

/// The digits of an exponent `x`: what follows `e` or `E` and an optional sign.
pub open spec fn exponent_digits(x: Seq<char>) -> Seq<char> {
    if x[1] == '+' || x[1] == '-' {
        x.skip(2)
    } else {
        x.skip(1)
    }
}

/// Whether `y` is one or more ASCII digits.
pub open spec fn all_digits(y: Seq<char>) -> bool {
    y.len() >= 1 && forall|i: int| 0 <= i < y.len() ==> #[trigger] is_digit(y[i])
}

/// Whether a coordinate text writes zero in decimal: an optional sign, a zero
/// mantissa (see `is_zero_mantissa`) and an optional exponent (`0`, `0.0`,
/// `-0.0`, `0.000`, `+.0`, `0.0e5`, `-0E-3`).
pub open spec fn is_zero_text(t: Seq<char>) -> bool {
    let r = unsigned_part(t);
    let k = mantissa_len(r) as int;
    is_zero_mantissa(r.take(k)) && exponent_ok(r.skip(k))
}

/// The key under which a coordinate text is counted: every way of writing
/// zero (`0.0`, `-0.0`, `0.000`, `0.0e5`, ...) counts as `0.0`, so that both
/// signed zeros are one value; any other text is its own key.
pub open spec fn coordinate_key_spec(t: Seq<char>) -> Seq<char> {
    if is_zero_text(t) {
        "0.0"@
    } else {
        t
    }
}

/// The leading run of `0` and `.` ends where the first other character is.
proof fn lemma_mantissa_len(r: Seq<char>, i: int)
    requires
        0 <= i <= r.len(),
        forall|j: int| 0 <= j < i ==> #[trigger] is_zero_char(r[j]),
        i == r.len() || !is_zero_char(r[i]),
    ensures
        mantissa_len(r) == i,
    decreases i,
{
    if i > 0 {
        let r1 = r.drop_first();
        assert forall|j: int| 0 <= j < i - 1 implies #[trigger] is_zero_char(r1[j]) by {
            assert(r1[j] == r[j + 1]);
        }
        if i - 1 < r1.len() {
            assert(r1[i - 1] == r[i]);
        }
        lemma_mantissa_len(r1, i - 1);
        assert(is_zero_char(r[0]));
    }
}

/// `n` zero digits.
pub open spec fn zeros(n: nat) -> Seq<char> {
    Seq::new(n, |i: int| '0')
}

/// Every decimal spelling of zero is keyed as `0.0`, whatever its number of
/// digits before and after the point and whether it has a sign: `sign`
/// (nothing, `-` or `+`), `a` zeros, a point and `b` zeros, with at least one
/// zero in all.
pub proof fn law_decimal_zeros_share_a_key(sign: Seq<char>, a: nat, b: nat)
    requires
        sign == Seq::<char>::empty() || sign == seq!['-'] || sign == seq!['+'],
        a + b >= 1,
    ensures
        coordinate_key_spec(sign + zeros(a) + seq!['.'] + zeros(b)) == "0.0"@,
{
    let r = zeros(a) + seq!['.'] + zeros(b);
    let t = sign + r;
    assert(t =~= sign + zeros(a) + seq!['.'] + zeros(b));
    lemma_zero_digits_are_zero(sign, r);
    assert forall|j: int| 0 <= j < r.len() implies #[trigger] is_zero_char(r[j]) by {
        if j < a {
            assert(r[j] == '0');
        } else if j == a {
            assert(r[j] == '.');
        } else {
            assert(r[j] == zeros(b)[j - a - 1]);
        }
    }
    lemma_mantissa_len(r, r.len() as int);
    assert(r.take(r.len() as int) =~= r);
    assert(r.skip(r.len() as int) =~= Seq::<char>::empty());
    if a >= 1 {
        assert(r[0] == '0');
    } else {
        assert(r[1] == '0');
    }
    assert(r.contains('0'));
    assert forall|i: int, j: int| 0 <= i < j < r.len() && #[trigger] r[i] == '.' implies #[trigger] r[j]
        != '.' by {
        if i < a {
            assert(r[i] == '0');
        } else if i > a {
            assert(r[i] == zeros(b)[i - a - 1]);
        }
        assert(r[j] == zeros(b)[j - a - 1]);
    }
    assert(is_zero_mantissa(r.take(mantissa_len(r) as int)));
    assert(is_zero_text(t));
}

/// The same for zeros written without a point: `sign` and one or more zeros.
pub proof fn law_integer_zeros_share_a_key(sign: Seq<char>, a: nat)
    requires
        sign == Seq::<char>::empty() || sign == seq!['-'] || sign == seq!['+'],
        a >= 1,
    ensures
        coordinate_key_spec(sign + zeros(a)) == "0.0"@,
{
    let r = zeros(a);
    let t = sign + r;
    lemma_zero_digits_are_zero(sign, r);
    assert forall|j: int| 0 <= j < r.len() implies #[trigger] is_zero_char(r[j]) by {}
    lemma_mantissa_len(r, r.len() as int);
    assert(r.take(r.len() as int) =~= r);
    assert(r.skip(r.len() as int) =~= Seq::<char>::empty());
    assert(r[0] == '0');
    assert(r.contains('0'));
    assert(is_zero_mantissa(r.take(mantissa_len(r) as int)));
    assert(is_zero_text(t));
}

/// A text made of `sign` (nothing, `-` or `+`) and `r`, where `r` starts with
/// `0` or `.`, has `r` as its unsigned part.
proof fn lemma_zero_digits_are_zero(sign: Seq<char>, r: Seq<char>)
    requires
        sign == Seq::<char>::empty() || sign == seq!['-'] || sign == seq!['+'],
        r.len() >= 1,
        r[0] == '0' || r[0] == '.',
    ensures
        unsigned_part(sign + r) == r,
{
    let t = sign + r;
    if sign.len() == 0 {
        assert(t =~= r);
    } else {
        assert(t[0] == sign[0]);
        assert(t.drop_first() =~= r);
    }
}

/// Whether the characters of `m` write zero (see `is_zero_mantissa`).
fn zero_mantissa(m: &[char]) -> (res: bool)
    ensures
        res == is_zero_mantissa(m@),
{
    let mut zeros: usize = 0;
    let mut dot: bool = false;
    let mut i: usize = 0;
    while i < m.len()
        invariant
            i <= m.len(),
            forall|k: int| 0 <= k < i ==> #[trigger] is_zero_char(m@[k]),
            forall|k: int, l: int| 0 <= k < l < i && #[trigger] m@[k] == '.' ==> #[trigger] m@[l] != '.',
            dot <==> exists|k: int| 0 <= k < i && m@[k] == '.',
            (zeros > 0) <==> exists|k: int| 0 <= k < i && m@[k] == '0',
            zeros <= i,
        decreases m.len() - i,
    {
        let c = m[i];
        if c == '0' {
            zeros = zeros + 1;
        } else if c == '.' && !dot {
            dot = true;
        } else {
            proof {
                let p = i as int;
                if c == '.' {
                    let k = choose|k: int| 0 <= k < i && m@[k] == '.';
                    assert(m@[k] == '.' && m@[p] == '.' && k < p);
                } else {
                    assert(!is_zero_char(m@[p]));
                }
            }
            return false;
        }
        i = i + 1;
    }
    proof {
        if zeros > 0 {
            let k = choose|k: int| 0 <= k < i && m@[k] == '0';
            assert(m@.contains('0'));
        } else {
            assert(!m@.contains('0'));
        }
    }
    zeros > 0
}

/// Whether the characters of `x` are empty or a decimal exponent (see
/// `exponent_ok`).
fn exponent_chars_ok(x: &[char]) -> (res: bool)
    ensures
        res == exponent_ok(x@),
{
    if x.len() == 0 {
        return true;
    }
    if x.len() < 2 || !(x[0] == 'e' || x[0] == 'E') {
        return false;
    }
    let from: usize = if x[1] == '+' || x[1] == '-' {
        2
    } else {
        1
    };
    let ghost y = x@.skip(from as int);
    assert(y == exponent_digits(x@));
    if from >= x.len() {
        assert(y.len() == 0);
        return false;
    }
    let mut i: usize = from;
    while i < x.len()
        invariant
            from <= i <= x.len(),
            y == x@.skip(from as int),
            y == exponent_digits(x@),
            y.len() == x.len() - from,
            forall|k: int| 0 <= k < i - from ==> #[trigger] is_digit(y[k]),
        decreases x.len() - i,
    {
        assert(y[i - from] == x@[i as int]);
        if !('0' <= x[i] && x[i] <= '9') {
            assert(!is_digit(y[i - from]));
            return false;
        }
        i = i + 1;
    }
    true
}

/// Whether a coordinate text writes zero (see `is_zero_text`).
pub fn is_zero_coordinate(t: &[char]) -> (res: bool)
    ensures
        res == is_zero_text(t@),
{
    let start: usize = if t.len() > 0 && (t[0] == '-' || t[0] == '+') {
        1
    } else {
        0
    };
    let ghost r = unsigned_part(t@);
    assert(r =~= t@.skip(start as int));
    let mut k: usize = start;
    while k < t.len() && (t[k] == '0' || t[k] == '.')
        invariant
            start <= k <= t.len(),
            r == t@.skip(start as int),
            forall|j: int| 0 <= j < k - start ==> #[trigger] is_zero_char(r[j]),
        decreases t.len() - k,
    {
        assert(r[k - start] == t@[k as int]);
        k = k + 1;
    }
    proof {
        if k < t.len() {
            assert(r[k - start] == t@[k as int]);
        }
        lemma_mantissa_len(r, k - start);
    }
    let mut mantissa: Vec<char> = Vec::new();
    let mut i: usize = start;
    while i < k
        invariant
            start <= i <= k <= t.len(),
            mantissa@ == t@.subrange(start as int, i as int),
        decreases k - i,
    {
        mantissa.push(t[i]);
        assert(t@.subrange(start as int, i + 1) =~= t@.subrange(start as int, i as int).push(t@[i as int]));
        i = i + 1;
    }
    assert(mantissa@ =~= r.take(k - start));
    let mut exponent: Vec<char> = Vec::new();
    let mut j: usize = k;
    while j < t.len()
        invariant
            k <= j <= t.len(),
            exponent@ == t@.subrange(k as int, j as int),
        decreases t.len() - j,
    {
        exponent.push(t[j]);
        assert(t@.subrange(k as int, j + 1) =~= t@.subrange(k as int, j as int).push(t@[j as int]));
        j = j + 1;
    }
    assert(exponent@ =~= r.skip(k - start));
    zero_mantissa(mantissa.as_slice()) && exponent_chars_ok(exponent.as_slice())
}

/// The key under which a coordinate text is counted (see `coordinate_key_spec`).
pub fn coordinate_key(t: &str) -> (res: Vec<char>)
    ensures
        res@ == coordinate_key_spec(t@),
{
    let v = chars_of(t);
    if is_zero_coordinate(v.as_slice()) {
        chars_of("0.0")
    } else {
        v
    }
}

/// The distinct values each coordinate takes over the vertex lines of an
/// `.obj`, each value counted by its key.
pub struct CoordinateKeys {
    x: Vec<Vec<char>>,
    y: Vec<Vec<char>>,
    z: Vec<Vec<char>>,
}

/// The keys held for one axis.
pub open spec fn key_seq(v: Vec<Vec<char>>) -> Seq<Seq<char>> {
    v@.map_values(|k: Vec<char>| k@)
}

impl CoordinateKeys {
    /// The keys held for axis `a`.
    closed spec fn axis(&self, a: int) -> Vec<Vec<char>> {
        if a == 0 {
            self.x
        } else if a == 1 {
            self.y
        } else {
            self.z
        }
    }

    /// The set of keys seen for axis `a` (0 for x, 1 for y, 2 for z).
    pub closed spec fn keys(&self, a: int) -> Set<Seq<char>> {
        key_seq(self.axis(a)).to_set()
    }

    /// No key is held twice for an axis.
    pub closed spec fn wf(&self) -> bool {
        forall|a: int| 0 <= a < 3 ==> #[trigger] key_seq(self.axis(a)).no_duplicates()
    }

    /// No vertex seen yet.
    pub fn new() -> (res: CoordinateKeys)
        ensures
            res.wf(),
            forall|a: int| 0 <= a < 3 ==> #[trigger] res.keys(a) == Set::<Seq<char>>::empty(),
    {
        let res = CoordinateKeys { x: Vec::new(), y: Vec::new(), z: Vec::new() };
        assert forall|a: int| 0 <= a < 3 implies #[trigger] res.keys(a) == Set::<Seq<char>>::empty() by {
            assert(key_seq(res.axis(a)) =~= Seq::<Seq<char>>::empty());
            assert(key_seq(res.axis(a)).to_set() =~= Set::<Seq<char>>::empty());
        }
        assert forall|a: int| 0 <= a < 3 implies #[trigger] key_seq(res.axis(a)).no_duplicates() by {
            assert(key_seq(res.axis(a)) =~= Seq::<Seq<char>>::empty());
        }
        res
    }

    /// Adds key `k` to the keys of one axis.
    fn insert_key(keys: &mut Vec<Vec<char>>, k: Vec<char>)
        requires
            key_seq(*old(keys)).no_duplicates(),
        ensures
            key_seq(*final(keys)).no_duplicates(),
            key_seq(*final(keys)).to_set() == key_seq(*old(keys)).to_set().insert(k@),
    {
        let ghost old_keys = key_seq(*keys);
        for i in 0..keys.len()
            invariant
                key_seq(*keys) == old_keys,
                old_keys.no_duplicates(),
                forall|j: int| 0 <= j < i ==> old_keys[j] != k@,
        {
            assert(old_keys[i as int] == keys@[i as int]@);
            if crate::text::chars_eq(keys[i].as_slice(), k.as_slice()) {
                assert(old_keys.to_set().contains(k@)) by {
                    assert(old_keys.contains(k@));
                }
                assert(old_keys.to_set().insert(k@) =~= old_keys.to_set());
                assert(key_seq(*keys).no_duplicates());
                return;
            }
        }
        keys.push(k);
        assert(key_seq(*keys) =~= old_keys.push(k@));
        assert(key_seq(*keys).to_set() =~= old_keys.to_set().insert(k@)) by {
            assert forall|x: Seq<char>| key_seq(*keys).to_set().contains(x) == old_keys.to_set().insert(
                k@,
            ).contains(x) by {
                if x == k@ {
                    assert(key_seq(*keys)[old_keys.len() as int] == x);
                } else if old_keys.contains(x) {
                    let j = choose|j: int| 0 <= j < old_keys.len() && old_keys[j] == x;
                    assert(key_seq(*keys)[j] == x);
                }
            }
        }
    }

    /// Counts the three coordinates of a vertex line, given as texts.
    pub fn add_vertex(&mut self, fields: &Vec<String>)
        requires
            old(self).wf(),
            fields@.len() == 3,
        ensures
            final(self).wf(),
            forall|a: int| 0 <= a < 3 ==> #[trigger] final(self).keys(a) == old(self).keys(a).insert(
                coordinate_key_spec(fields@[a]@),
            ),
    {
        let ghost old_self = *self;
        let k0 = coordinate_key(fields[0].as_str());
        let k1 = coordinate_key(fields[1].as_str());
        let k2 = coordinate_key(fields[2].as_str());
        assert(key_seq(self.axis(0)).no_duplicates());
        assert(key_seq(self.axis(1)).no_duplicates());
        assert(key_seq(self.axis(2)).no_duplicates());
        Self::insert_key(&mut self.x, k0);
        Self::insert_key(&mut self.y, k1);
        Self::insert_key(&mut self.z, k2);
        assert forall|a: int| 0 <= a < 3 implies #[trigger] key_seq(self.axis(a)).no_duplicates() by {
            if a == 0 {
            } else if a == 1 {
            } else {
            }
        }
        assert forall|a: int| 0 <= a < 3 implies #[trigger] self.keys(a) == old_self.keys(a).insert(
            coordinate_key_spec(fields@[a]@),
        ) by {
            if a == 0 {
            } else if a == 1 {
            } else {
            }
        }
    }

    /// How many distinct keys axis `a` has taken.
    pub fn distinct_count(&self, a: usize) -> (res: usize)
        requires
            self.wf(),
            a < 3,
        ensures
            res == self.keys(a as int).len(),
    {
        proof {
            key_seq(self.axis(a as int)).unique_seq_to_set();
        }
        if a == 0 {
            self.x.len()
        } else if a == 1 {
            self.y.len()
        } else {
            self.z.len()
        }
    }

    /// Whether axis `a` takes a single value.
    pub open spec fn is_constant(&self, a: int) -> bool {
        self.keys(a).len() == 1
    }

    /// The two constant axes of a line, in the order they are removed from
    /// each vertex: x and y give `[1, 0]`, y and z give `[2, 1]`, z and x give
    /// `[2, 0]`, checked in that order. A mesh that is not a line parallel to
    /// an axis is refused.
    pub fn constant_axes_1d(&self) -> (res: Result<[usize; 2], Error>)
        requires
            self.wf(),
        ensures
            self.is_constant(0) && self.is_constant(1) ==> res == Ok::<[usize; 2], Error>([1, 0]),
            !(self.is_constant(0) && self.is_constant(1)) && self.is_constant(1) && self.is_constant(2)
                ==> res == Ok::<[usize; 2], Error>([2, 1]),
            !(self.is_constant(0) && self.is_constant(1)) && !(self.is_constant(1)
                && self.is_constant(2)) && self.is_constant(2) && self.is_constant(0) ==> res
                == Ok::<[usize; 2], Error>([2, 0]),
            res is Err <==> !(self.is_constant(0) && self.is_constant(1)) && !(self.is_constant(1)
                && self.is_constant(2)) && !(self.is_constant(2) && self.is_constant(0)),
            res matches Err(e) ==> e matches Error::MeshParse(s) && s@
                == "Only coordinates over a line paralell to x, y or z axis are accepted. Check .obj file."@,
    {
        let cx = self.distinct_count(0) == 1;
        let cy = self.distinct_count(1) == 1;
        let cz = self.distinct_count(2) == 1;
        if cx && cy {
            Ok([1, 0])
        } else if cy && cz {
            Ok([2, 1])
        } else if cz && cx {
            Ok([2, 0])
        } else {
            Err(
                Error::MeshParse(
                    String::from_str(
                        "Only coordinates over a line paralell to x, y or z axis are accepted. Check .obj file.",
                    ),
                ),
            )
        }
    }

    /// The constant axis of a plane figure: the first of x, y, z that takes a
    /// single value. A mesh that is not parallel to an axis plane is refused.
    pub fn constant_axis_2d(&self) -> (res: Result<usize, Error>)
        requires
            self.wf(),
        ensures
            self.is_constant(0) ==> res == Ok::<usize, Error>(0),
            !self.is_constant(0) && self.is_constant(1) ==> res == Ok::<usize, Error>(1),
            !self.is_constant(0) && !self.is_constant(1) && self.is_constant(2) ==> res == Ok::<
                usize,
                Error,
            >(2),
            res is Err <==> !self.is_constant(0) && !self.is_constant(1) && !self.is_constant(2),
            res matches Err(e) ==> e matches Error::MeshParse(s) && s@
                == "Only coordinates over a plane paralell to x, y or z plane are accepted. Check .obj file."@,
    {
        if self.distinct_count(0) == 1 {
            Ok(0)
        } else if self.distinct_count(1) == 1 {
            Ok(1)
        } else if self.distinct_count(2) == 1 {
            Ok(2)
        } else {
            Err(
                Error::MeshParse(
                    String::from_str(
                        "Only coordinates over a plane paralell to x, y or z plane are accepted. Check .obj file.",
                    ),
                ),
            )
        }
    }
}

/// How many times `e` occurs in `s`.
pub open spec fn count_spec(s: Seq<(u32, u32)>, e: (u32, u32)) -> nat
    decreases s.len(),
{
    if s.len() == 0 {
        0
    } else {
        count_spec(s.drop_last(), e) + if s.last() == e {
            1nat
        } else {
            0nat
        }
    }
}

proof fn lemma_count_le_len(s: Seq<(u32, u32)>, e: (u32, u32))
    ensures
        count_spec(s, e) <= s.len(),
    decreases s.len(),
{
    if s.len() > 0 {
        lemma_count_le_len(s.drop_last(), e);
    }
}

proof fn lemma_count_pos_contains(s: Seq<(u32, u32)>, e: (u32, u32))
    ensures
        count_spec(s, e) > 0 <==> s.contains(e),
    decreases s.len(),
{
    if s.len() > 0 {
        lemma_count_pos_contains(s.drop_last(), e);
        if s.drop_last().contains(e) {
            let j = choose|j: int| 0 <= j < s.drop_last().len() && s.drop_last()[j] == e;
            assert(s[j] == e);
        }
        if s.contains(e) && s.last() != e {
            let j = choose|j: int| 0 <= j < s.len() && s[j] == e;
            assert(s.drop_last()[j] == e);
        }
    }
}

/// An edge between two vertices, whatever its direction: the pair of its
/// ends, smaller index first.
pub open spec fn edge_spec(a: u32, b: u32) -> (u32, u32) {
    if a <= b {
        (a, b)
    } else {
        (b, a)
    }
}

/// An edge is the same whichever end a triangle names first.
pub proof fn law_edge_undirected(a: u32, b: u32)
    ensures
        edge_spec(a, b) == edge_spec(b, a),
{
}

/// The edge between two vertices (see `edge_spec`).
fn edge(a: u32, b: u32) -> (res: (u32, u32))
    ensures
        res == edge_spec(a, b),
{
    if a <= b {
        (a, b)
    } else {
        (b, a)
    }
}

/// The three edges of the `k`-th triangle (a, b, c) of the index list, each
/// taken without direction: a-b, a-c, c-b.
pub open spec fn triangle_edges(t: Seq<u32>, k: int) -> Seq<(u32, u32)> {
    seq![
        edge_spec(t[3 * k], t[3 * k + 1]),
        edge_spec(t[3 * k], t[3 * k + 2]),
        edge_spec(t[3 * k + 2], t[3 * k + 1]),
    ]
}

/// The edges of the first `n` triangles of an index list.
pub open spec fn edges_spec(t: Seq<u32>, n: nat) -> Seq<(u32, u32)>
    decreases n,
{
    if n == 0 {
        Seq::empty()
    } else {
        edges_spec(t, (n - 1) as nat) + triangle_edges(t, n - 1)
    }
}

/// The boundary vertices of a plane mesh: those on an edge that exactly one
/// triangle has.
pub open spec fn boundary_spec(t: Seq<u32>) -> Set<u32> {
    let es = edges_spec(t, t.len() / 3);
    Set::new(
        |v: u32|
            exists|e: (u32, u32)|
                es.contains(e) && count_spec(es, e) == 1 && (e.0 == v || e.1 == v),
    )
}

/// The counting table: each distinct edge once, with its number of
/// occurrences in `es`, and every edge of `es` in it.
spec fn table_inv(keys: Seq<(u32, u32)>, counts: Seq<usize>, es: Seq<(u32, u32)>) -> bool {
    &&& keys.len() == counts.len()
    &&& keys.no_duplicates()
    &&& forall|j: int| 0 <= j < keys.len() ==> #[trigger] counts[j] == count_spec(es, keys[j])
    &&& forall|e: (u32, u32)| es.contains(e) ==> keys.contains(e)
}

/// Counts one more occurrence of edge `e`.
fn add_edge(
    keys: &mut Vec<(u32, u32)>,
    counts: &mut Vec<usize>,
    e: (u32, u32),
    Ghost(es): Ghost<Seq<(u32, u32)>>,
)
    requires
        table_inv(old(keys)@, old(counts)@, es),
        es.len() < usize::MAX,
    ensures
        table_inv(final(keys)@, final(counts)@, es.push(e)),
{
    let ghost es2 = es.push(e);
    assert(es2.drop_last() =~= es);
    assert forall|x: (u32, u32)| #[trigger] count_spec(es2, x) == count_spec(es, x) + if x == e {
        1nat
    } else {
        0nat
    } by {}
    assert forall|x: (u32, u32)| es2.contains(x) implies (es.contains(x) || x == e) by {
        let j = choose|j: int| 0 <= j < es2.len() && es2[j] == x;
        if j < es.len() {
            assert(es[j] == x);
        }
    }
    let n = keys.len();
    for i in 0..n
        invariant
            n == keys@.len(),
            table_inv(keys@, counts@, es),
            es.len() < usize::MAX,
            es2 == es.push(e),
            forall|x: (u32, u32)| #[trigger] count_spec(es2, x) == count_spec(es, x) + if x == e {
                1nat
            } else {
                0nat
            },
            forall|x: (u32, u32)| es2.contains(x) ==> (es.contains(x) || x == e),
            forall|j: int| 0 <= j < i ==> keys@[j] != e,
    {
        let k = keys[i];
        if k.0 == e.0 && k.1 == e.1 {
            proof {
                lemma_count_le_len(es, e);
            }
            let c = counts[i] + 1;
            counts.set(i, c);
            assert forall|j: int| 0 <= j < keys@.len() implies #[trigger] counts@[j] == count_spec(
                es2,
                keys@[j],
            ) by {
                if j != i {
                    assert(keys@[j] != keys@[i as int]);
                }
            }
            assert forall|x: (u32, u32)| es2.contains(x) implies keys@.contains(x) by {
                if x == e {
                    assert(keys@[i as int] == x);
                }
            }
            return;
        }
    }
    proof {
        lemma_count_pos_contains(es, e);
    }
    let ghost old_keys = keys@;
    keys.push(e);
    counts.push(1);
    assert forall|j: int| 0 <= j < keys@.len() implies #[trigger] counts@[j] == count_spec(
        es2,
        keys@[j],
    ) by {
        if j < n {
            assert(keys@[j] != e);
        }
    }
    assert(keys@.no_duplicates());
    assert forall|x: (u32, u32)| es2.contains(x) implies keys@.contains(x) by {
        if x == e {
            assert(keys@[n as int] == x);
        } else {
            assert(old_keys.contains(x));
            let j = choose|j: int| 0 <= j < n && old_keys[j] == x;
            assert(keys@[j] == x);
        }
    }
}

/// The boundary vertices of a plane mesh given by its triangle index list
/// (three indices per triangle): each vertex on an edge that exactly one
/// triangle has, once. An edge is the same whichever direction a triangle
/// names it in.
pub fn boundary_vertices(t: &[u32]) -> (res: Vec<u32>)
    requires
        t@.len() % 3 == 0,
    ensures
        res@.no_duplicates(),
        res@.to_set() == boundary_spec(t@),
{
    let mut keys: Vec<(u32, u32)> = Vec::new();
    let mut counts: Vec<usize> = Vec::new();
    let ntri = t.len() / 3;
    for k in 0..ntri
        invariant
            ntri == t@.len() / 3,
            3 * ntri == t@.len(),
            t@.len() % 3 == 0,
            table_inv(keys@, counts@, edges_spec(t@, k as nat)),
            edges_spec(t@, k as nat).len() == 3 * k,
    {
        let ghost es0 = edges_spec(t@, k as nat);
        assert(t@.len() == t.len());
        assert(3 * k + 2 < t@.len()) by (nonlinear_arith)
            requires
                k < ntri,
                3 * ntri == t@.len(),
        ;
        let a = t[3 * k];
        let b = t[3 * k + 1];
        let c = t[3 * k + 2];
        let ab = edge(a, b);
        let ac = edge(a, c);
        let cb = edge(c, b);
        add_edge(&mut keys, &mut counts, ab, Ghost(es0));
        add_edge(&mut keys, &mut counts, ac, Ghost(es0.push(ab)));
        add_edge(&mut keys, &mut counts, cb, Ghost(es0.push(ab).push(ac)));
        assert(edges_spec(t@, (k + 1) as nat) =~= es0.push(ab).push(ac).push(cb));
    }
    let ghost es = edges_spec(t@, ntri as nat);
    let mut res: Vec<u32> = Vec::new();
    for j in 0..keys.len()
        invariant
            table_inv(keys@, counts@, es),
            res@.no_duplicates(),
            forall|v: u32|
                res@.contains(v) <==> exists|i: int|
                    0 <= i < j && #[trigger] counts@[i] == 1 && (keys@[i].0 == v || keys@[i].1 == v),
    {
        let ghost old_res = res@;
        if counts[j] == 1 {
            let e = keys[j];
            if !contains_u32(&res, e.0) {
                res.push(e.0);
            }
            let ghost mid = res@;
            if !contains_u32(&res, e.1) {
                res.push(e.1);
            }
            assert forall|v: u32| #[trigger] res@.contains(v) <==> (old_res.contains(v) || v == e.0 || v == e.1) by {
                broadcast use vstd::seq_lib::lemma_seq_contains_after_push;
            }
            assert(res@.contains(keys@[j as int].0) && res@.contains(keys@[j as int].1));
        }
        assert forall|v: u32|
            res@.contains(v) <==> exists|i: int|
                0 <= i < j + 1 && #[trigger] counts@[i] == 1 && (keys@[i].0 == v || keys@[i].1 == v) by {
            if counts@[j as int] == 1 && (keys@[j as int].0 == v || keys@[j as int].1 == v) {
                assert(res@.contains(v));
            }
            if old_res.contains(v) {
                let i = choose|i: int|
                    0 <= i < j && #[trigger] counts@[i] == 1 && (keys@[i].0 == v || keys@[i].1 == v);
                assert(0 <= i < j + 1);
            }
        }
    }
    assert(res@.to_set() =~= boundary_spec(t@)) by {
        assert forall|v: u32| res@.to_set().contains(v) == boundary_spec(t@).contains(v) by {
            if res@.contains(v) {
                let i = choose|i: int|
                    0 <= i < keys@.len() && #[trigger] counts@[i] == 1 && (keys@[i].0 == v
                        || keys@[i].1 == v);
                lemma_count_pos_contains(es, keys@[i]);
                assert(es.contains(keys@[i]) && count_spec(es, keys@[i]) == 1);
            }
            if boundary_spec(t@).contains(v) {
                let e = choose|e: (u32, u32)|
                    es.contains(e) && count_spec(es, e) == 1 && (e.0 == v || e.1 == v);
                assert(keys@.contains(e));
                let i = choose|i: int| 0 <= i < keys@.len() && keys@[i] == e;
                assert(counts@[i] == 1);
            }
        }
    }
    res
}

/// Whether `v` holds `x`.
fn contains_u32(v: &Vec<u32>, x: u32) -> (res: bool)
    ensures
        res == v@.contains(x),
{
    for i in 0..v.len()
        invariant
            forall|j: int| 0 <= j < i ==> v@[j] != x,
    {
        if v[i] == x {
            return true;
        }
    }
    false
}

/// The `k`-th index of the triangles between the first and last ones of a
/// bar with `n` vertices on each side: for each `i` from 1, the triangles
/// (i, i + n, i + n - 1) and (i, i + 1, i + n).
pub open spec fn bar_middle(n: int, k: int) -> int {
    let i = k / 6 + 1;
    let r = k % 6;
    if r == 0 {
        i
    } else if r == 1 {
        i + n
    } else if r == 2 {
        i + n - 1
    } else if r == 3 {
        i
    } else if r == 4 {
        i + 1
    } else {
        i + n
    }
}

proof fn lemma_bar_middle_block(n: int, i: int, r: int)
    requires
        i >= 1,
        0 <= r < 6,
    ensures
        bar_middle(n, 6 * (i - 1) + r) == (if r == 0 {
            i
        } else if r == 1 {
            i + n
        } else if r == 2 {
            i + n - 1
        } else if r == 3 {
            i
        } else if r == 4 {
            i + 1
        } else {
            i + n
        }),
{
    assert((6 * (i - 1) + r) / 6 == i - 1) by (nonlinear_arith)
        requires
            i >= 1,
            0 <= r < 6,
    ;
    assert((6 * (i - 1) + r) % 6 == r) by (nonlinear_arith)
        requires
            i >= 1,
            0 <= r < 6,
    ;
}

/// The triangles that draw a one-dimensional mesh as a bar, given `len`, the
/// number of values of its lower line (six per vertex, `n = len / 6`
/// vertices): the first triangle (0, 1, n), the last one
/// ((len - 6) / 6, (2 len - 6) / 6, (2 len - 12) / 6) and two triangles for
/// each vertex between them.
pub open spec fn bar_indices_spec(len: int) -> Seq<u32> {
    let n = len / 6;
    let m = if n >= 2 {
        n - 2
    } else {
        0
    };
    seq![0u32, 1u32, n as u32] + seq![
        ((len - 6) / 6) as u32,
        ((2 * len - 6) / 6) as u32,
        ((2 * len - 12) / 6) as u32,
    ] + Seq::new((6 * m) as nat, |k: int| bar_middle(n, k) as u32)
}

/// The triangle indices that draw a one-dimensional mesh as a bar (see
/// `bar_indices_spec`). When `len` is a whole number of vertices, every index
/// names one of the `2 n` vertices of the bar.
pub fn bar_indices(len: u32) -> (res: Vec<u32>)
    requires
        6 <= len,
        2 * len <= u32::MAX,
    ensures
        res@ == bar_indices_spec(len as int),
        len % 6 == 0 ==> forall|k: int| 0 <= k < res@.len() ==> #[trigger] res@[k] < 2 * (len / 6),
        res@.len() % 3 == 0,
        len / 6 >= 2 ==> res@.len() == 6 * (len / 6 - 1),
{
    let n = len / 6;
    let mut res: Vec<u32> = Vec::new();
    res.push(0);
    res.push(1);
    res.push(n);
    res.push((len - 6) / 6);
    res.push((len * 2 - 6) / 6);
    res.push((len * 2 - 12) / 6);
    let ghost head = res@;
    let upper: u32 = n - 1;
    let mut i: u32 = 1;
    while i < upper
        invariant
            1 <= i,
            n == len / 6,
            6 <= len,
            2 * len <= u32::MAX,
            upper == n - 1,
            head.len() == 6,
            i <= upper || i == 1,
            res@ == head + Seq::new((6 * (i - 1)) as nat, |k: int| bar_middle(n as int, k) as u32),
        decreases upper - i,
    {
        let ghost before = res@;
        res.push(i);
        res.push(i + n);
        res.push(i + n - 1);
        res.push(i);
        res.push(i + 1);
        res.push(i + n);
        let ghost old_i = i as int;
        assert(res@ =~= before + seq![i, (i + n) as u32, (i + n - 1) as u32, i, (i + 1) as u32, (i + n) as u32]);
        assert(before.len() == 6 + 6 * (old_i - 1));
        i = i + 1;
        assert(res@ =~= head + Seq::new((6 * (i - 1)) as nat, |k: int| bar_middle(n as int, k) as u32)) by {
            assert forall|k: int| 0 <= k < 6 * (i - 1) implies #[trigger] res@[6 + k] == bar_middle(n as int, k) as u32 by {
                if k >= 6 * (old_i - 1) {
                    lemma_bar_middle_block(n as int, old_i, k - 6 * (old_i - 1));
                } else {
                    assert(res@[6 + k] == before[6 + k]);
                }
            }
        }
    }
    let ghost m: int = if n >= 2 {
        n - 2
    } else {
        0
    };
    assert(6 * (i - 1) == 6 * m);
    assert(res@ =~= bar_indices_spec(len as int));
    proof {
        if len % 6 == 0 {
            assert forall|k: int| 0 <= k < res@.len() implies #[trigger] res@[k] < 2 * (len / 6) by {
                if k >= 6 {
                    let q = k - 6;
                    assert(q / 6 + 1 <= n - 2) by (nonlinear_arith)
                        requires
                            0 <= q < 6 * m,
                            m == n - 2 || m == 0,
                            m >= 0,
                            n >= 1,
                    ;
                }
            }
        }
        assert(res@.len() == 6 + 6 * m);
    }
    res
}

/// Removes the value at `idx` of a vertex and appends `pad` at its end.
pub fn remove_and_pad<T: Copy>(v: &mut Vec<T>, idx: usize, pad: T)
    requires
        idx < old(v)@.len(),
    ensures
        final(v)@ == old(v)@.remove(idx as int).push(pad),
{
    v.remove(idx);
    v.push(pad);
}

/// Removes the two constant coordinates of a vertex of a line, in the given
/// order, padding with `pad` after each removal.
pub fn drop_constant_axes<T: Copy>(v: &mut Vec<T>, axes: [usize; 2], pad: T)
    requires
        axes[0] < old(v)@.len(),
        axes[1] < old(v)@.len(),
    ensures
        final(v)@ == old(v)@.remove(axes[0] as int).push(pad).remove(axes[1] as int).push(pad),
{
    remove_and_pad(v, axes[0], pad);
    remove_and_pad(v, axes[1], pad);
}

/// The upper line of a bar: each value of the lower line, with the second
/// value of each vertex (its height) replaced by `height`.
pub open spec fn raised_spec<T>(s: Seq<T>, height: T) -> Seq<T> {
    Seq::new(s.len(), |i: int| if i % 6 == 1 { height } else { s[i] })
}

/// Appends the upper line of a bar to the lower line `v` (see `raised_spec`).
pub fn append_raised_copy<T: Copy>(v: &mut Vec<T>, height: T)
    requires
        2 * old(v)@.len() <= usize::MAX,
    ensures
        final(v)@ == old(v)@ + raised_spec(old(v)@, height),
{
    let n = v.len();
    let ghost orig = v@;
    for i in 0..n
        invariant
            n == orig.len(),
            2 * n <= usize::MAX,
            v@ == orig + raised_spec(orig, height).take(i as int),
    {
        let x = if i % 6 == 1 {
            height
        } else {
            v[i]
        };
        v.push(x);
        assert(v@ =~= orig + raised_spec(orig, height).take(i + 1));
    }
    assert(raised_spec(orig, height).take(n as int) =~= raised_spec(orig, height));
}

/// The first coordinate of each vertex of the lower line of a bar: the
/// values at positions 0, 6, 12, ... of the vertex array, one for each of the
/// `len / 12` vertices of a line (the bar holds two lines of six values per
/// vertex).
pub open spec fn filter_1d_spec<T>(s: Seq<T>) -> Seq<T> {
    Seq::new(s.len() / 12, |k: int| s[6 * k])
}

/// The positions along the line of the vertices of a one-dimensional mesh,
/// as the solver takes them (see `filter_1d_spec`).
pub fn filter_for_solving_1d<T: Copy>(v: &[T]) -> (res: Vec<T>)
    ensures
        res@ == filter_1d_spec(v@),
        res@.len() == v@.len() / 12,
        forall|k: int| 0 <= k < v@.len() / 12 ==> #[trigger] res@[k] == v@[6 * k],
{
    let count = v.len() / 12;
    let mut res: Vec<T> = Vec::new();
    for k in 0..count
        invariant
            count == v@.len() / 12,
            v@.len() == v.len(),
            res@ == filter_1d_spec(v@).take(k as int),
    {
        assert(6 * k < v@.len()) by (nonlinear_arith)
            requires
                k < count,
                count == v@.len() / 12,
        ;
        res.push(v[6 * k]);
        assert(res@ =~= filter_1d_spec(v@).take(k + 1));
    }
    assert(filter_1d_spec(v@).take(count as int) =~= filter_1d_spec(v@));
    proof {
        law_filter_1d_positions(v@);
    }
    res
}

/// The solver gets one position for each vertex of the lower line of a bar,
/// whatever the number of vertices: the `k`-th is the first value of the
/// `k`-th vertex, for each of the `len / 12` vertices.
pub proof fn law_filter_1d_positions<T>(s: Seq<T>)
    ensures
        filter_1d_spec(s).len() == s.len() / 12,
        forall|k: int| 0 <= k < s.len() / 12 ==> #[trigger] filter_1d_spec(s)[k] == s[6 * k],
{
}

/// The value at position `p` of the vertex array of a bar once the colours
/// of its vertices are set: the red and blue entries (positions 3 and 5 of
/// each vertex) of the `i`-th vertex of both lines become `sines[i]` and
/// `cosines[i]`, for each of the `len / 12` vertices of a line.
pub open spec fn gradient_spec<T>(s: Seq<T>, sines: Seq<T>, cosines: Seq<T>, p: int) -> T {
    let h = s.len() / 2;
    let q = if p >= h {
        p - h
    } else {
        p
    };
    let i = q / 6;
    if i < s.len() / 12 && q % 6 == 3 {
        sines[i]
    } else if i < s.len() / 12 && q % 6 == 5 {
        cosines[i]
    } else {
        s[p]
    }
}

/// Sets the colour of each vertex of a bar from the given sines and cosines
/// (see `gradient_spec`); the other values stay.
pub fn apply_gradient_1d<T: Copy>(v: &mut Vec<T>, sines: &[T], cosines: &[T])
    requires
        sines@.len() >= old(v)@.len() / 12,
        cosines@.len() >= old(v)@.len() / 12,
    ensures
        final(v)@.len() == old(v)@.len(),
        forall|i: int| 0 <= i < old(v)@.len() / 12 ==> {
            &&& #[trigger] final(v)@[6 * i + 3] == sines@[i]
            &&& final(v)@[6 * i + 5] == cosines@[i]
            &&& final(v)@[6 * i + 3 + old(v)@.len() / 2] == sines@[i]
            &&& final(v)@[6 * i + 5 + old(v)@.len() / 2] == cosines@[i]
        },
        forall|p: int| 0 <= p < old(v)@.len() ==> #[trigger] final(v)@[p] == gradient_spec(
            old(v)@,
            sines@,
            cosines@,
            p,
        ),
{
    let len = v.len();
    let h = len / 2;
    let count = len / 12;
    let ghost orig = v@;
    for i in 0..count
        invariant
            len == orig.len(),
            h == len / 2,
            count == len / 12,
            sines@.len() >= count,
            cosines@.len() >= count,
            v@.len() == len,
            forall|p: int| 0 <= p < len ==> #[trigger] v@[p] == (if (p < h && p / 6 < i) || (p >= h
                && (p - h) / 6 < i) {
                gradient_spec(orig, sines@, cosines@, p)
            } else {
                orig[p]
            }),
    {
        assert(6 * i + 5 + h < len) by (nonlinear_arith)
            requires
                i < count,
                count == len / 12,
                h == len / 2,
        ;
        v.set(6 * i + 3, sines[i]);
        v.set(6 * i + 5, cosines[i]);
        v.set(6 * i + 3 + h, sines[i]);
        v.set(6 * i + 5 + h, cosines[i]);
        assert forall|p: int| 0 <= p < len implies #[trigger] v@[p] == (if (p < h && p / 6 < i + 1)
            || (p >= h && (p - h) / 6 < i + 1) {
            gradient_spec(orig, sines@, cosines@, p)
        } else {
            orig[p]
        }) by {
            assert(6 * i + 5 < h) by (nonlinear_arith)
                requires
                    i < count,
                    count == len / 12,
                    h == len / 2,
            ;
            if p < h {
                if p / 6 == i {
                    assert(p % 6 == p - 6 * i) by (nonlinear_arith)
                        requires
                            p / 6 == i,
                            p >= 0,
                    ;
                    assert(6 * i <= p < 6 * i + 6) by (nonlinear_arith)
                        requires
                            p / 6 == i,
                            p >= 0,
                    ;
                } else if p / 6 > i {
                    assert(p >= 6 * i + 6) by (nonlinear_arith)
                        requires
                            p / 6 > i,
                            p >= 0,
                    ;
                } else {
                    assert(p < 6 * i) by (nonlinear_arith)
                        requires
                            p / 6 < i,
                            p >= 0,
                    ;
                }
            } else {
                let q = p - h;
                if q / 6 == i {
                    assert(q % 6 == q - 6 * i) by (nonlinear_arith)
                        requires
                            q / 6 == i,
                            q >= 0,
                    ;
                    assert(6 * i <= q < 6 * i + 6) by (nonlinear_arith)
                        requires
                            q / 6 == i,
                            q >= 0,
                    ;
                } else if q / 6 > i {
                    assert(q >= 6 * i + 6) by (nonlinear_arith)
                        requires
                            q / 6 > i,
                            q >= 0,
                    ;
                } else {
                    assert(q < 6 * i) by (nonlinear_arith)
                        requires
                            q / 6 < i,
                            q >= 0,
                    ;
                }
            }
        }
    }
    assert forall|p: int| 0 <= p < len implies #[trigger] v@[p] == gradient_spec(
        orig,
        sines@,
        cosines@,
        p,
    ) by {
        if !((p < h && p / 6 < count) || (p >= h && (p - h) / 6 < count)) {
            if p < h {
                assert(p / 6 >= count);
            } else {
                assert((p - h) / 6 >= count);
            }
        }
    }
    proof {
        law_gradient_colours_every_vertex(orig, sines@, cosines@);
        assert forall|i: int| 0 <= i < len / 12 implies {
            &&& #[trigger] v@[6 * i + 3] == sines@[i]
            &&& v@[6 * i + 5] == cosines@[i]
            &&& v@[6 * i + 3 + len / 2] == sines@[i]
            &&& v@[6 * i + 5 + len / 2] == cosines@[i]
        } by {
            assert(6 * i + 5 + len / 2 < len) by (nonlinear_arith)
                requires
                    0 <= i < len / 12,
            ;
            assert(gradient_spec(orig, sines@, cosines@, 6 * i + 3) == sines@[i]);
            assert(gradient_spec(orig, sines@, cosines@, 6 * i + 5) == cosines@[i]);
            assert(gradient_spec(orig, sines@, cosines@, 6 * i + 3 + len / 2) == sines@[i]);
            assert(gradient_spec(orig, sines@, cosines@, 6 * i + 5 + len / 2) == cosines@[i]);
        }
    }
}

/// Every vertex of both lines of a bar is coloured, whatever the parity of
/// the number of vertices: for each of the `len / 12` vertices `i` of a line,
/// its red and blue entries on the lower line and on the upper line (half the
/// array further) are `sines[i]` and `cosines[i]`.
pub proof fn law_gradient_colours_every_vertex<T>(s: Seq<T>, sines: Seq<T>, cosines: Seq<T>)
    ensures
        forall|i: int| 0 <= i < s.len() / 12 ==> {
            &&& #[trigger] gradient_spec(s, sines, cosines, 6 * i + 3) == sines[i]
            &&& gradient_spec(s, sines, cosines, 6 * i + 5) == cosines[i]
            &&& gradient_spec(s, sines, cosines, 6 * i + 3 + s.len() / 2) == sines[i]
            &&& gradient_spec(s, sines, cosines, 6 * i + 5 + s.len() / 2) == cosines[i]
        },
{
    assert forall|i: int| 0 <= i < s.len() / 12 implies {
        &&& #[trigger] gradient_spec(s, sines, cosines, 6 * i + 3) == sines[i]
        &&& gradient_spec(s, sines, cosines, 6 * i + 5) == cosines[i]
        &&& gradient_spec(s, sines, cosines, 6 * i + 3 + s.len() / 2) == sines[i]
        &&& gradient_spec(s, sines, cosines, 6 * i + 5 + s.len() / 2) == cosines[i]
    } by {
        let len = s.len() as int;
        let h = len / 2;
        assert(6 * i + 5 < h) by (nonlinear_arith)
            requires
                0 <= i < len / 12,
                h == len / 2,
        ;
        assert((6 * i + 3) / 6 == i && (6 * i + 3) % 6 == 3) by (nonlinear_arith)
            requires
                0 <= i,
        ;
        assert((6 * i + 5) / 6 == i && (6 * i + 5) % 6 == 5) by (nonlinear_arith)
            requires
                0 <= i,
        ;
        assert(6 * i + 3 + h - h == 6 * i + 3);
        assert(6 * i + 5 + h - h == 6 * i + 5);
    }
}

} // verus!
