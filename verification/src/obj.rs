//! The Wavefront `.obj` grammar that meshes are read from: vertex lines
//! (`v x y z`) and triangular face lines (`f a/b/c a/b/c a/b/c`).
use vstd::prelude::*;
use crate::error::Error;
use crate::numbers::{IntErrorKind, parse_bounded, parse_u32, parse_unsigned_spec};
use crate::text::{chars_of, split_chars, split_spec, views, string_views, string_of, ends_with_spec, ends_with_str, starts_with_spec, starts_with_str, lemma_split_nonempty};

verus! {

/// The fields of a line after its leading keyword (`v` or `f`), as the
/// pieces of splitting on single spaces.
pub open spec fn obj_fields(line: Seq<char>) -> Seq<Seq<char>> {
    split_spec(line, ' ').drop_first()
}

/// Whether a line of an `.obj` describes a vertex.
pub open spec fn is_vertex_line_spec(line: Seq<char>) -> bool {
    starts_with_spec(line, "v "@)
}

/// Whether a line of an `.obj` describes a face.
pub open spec fn is_face_line_spec(line: Seq<char>) -> bool {
    starts_with_spec(line, "f "@)
}

/// What reading a face line gives.
pub enum FaceLine {
    /// The three vertex indices of the face, counted from zero.
    Faces(Seq<u32>),
    /// The line does not hold exactly three face fields.
    WrongCount,
    /// The vertex index of a field is not a `u32`.
    BadIndex(IntErrorKind),
    /// A field does not have the form `a/b/c`.
    WrongSlashes,
    /// A field names vertex 0, which `.obj` files never do; turning it into a
    /// zero-based index underflows.
    ZeroIndex,
}

/// One face field `a/b/c`: the vertex index `a` counted from zero.
pub open spec fn face_field_spec(f: Seq<char>) -> Result<u32, FaceLine> {
    let fp = split_spec(f, '/');
    match parse_unsigned_spec(fp[0], u32::MAX as int) {
        Err(k) => Err(FaceLine::BadIndex(k)),
        Ok(v) => if fp.len() != 3 {
            Err(FaceLine::WrongSlashes)
        } else if v == 0 {
            Err(FaceLine::ZeroIndex)
        } else {
            Ok((v - 1) as u32)
        },
    }
}

/// The face fields read from left to right; the first failure decides.
pub open spec fn face_fields_spec(fs: Seq<Seq<char>>) -> FaceLine
    decreases fs.len(),
{
    if fs.len() == 0 {
        FaceLine::Faces(Seq::empty())
    } else {
        match face_field_spec(fs[0]) {
            Err(x) => x,
            Ok(v) => match face_fields_spec(fs.drop_first()) {
                FaceLine::Faces(r) => FaceLine::Faces(seq![v] + r),
                x => x,
            },
        }
    }
}

/// What reading a face line gives: three fields are required.
pub open spec fn face_line_spec(line: Seq<char>) -> FaceLine {
    let fs = obj_fields(line);
    if fs.len() != 3 {
        FaceLine::WrongCount
    } else {
        face_fields_spec(fs)
    }
}

/// The error reported for a face line that cannot be read.
pub open spec fn face_error_spec(x: FaceLine, e: Error) -> bool {
    match x {
        FaceLine::WrongCount => e matches Error::MeshParse(s) && s@
            == "Amount of face specificating elements should be 3."@,
        FaceLine::BadIndex(k) => e matches Error::MeshParse(s) && s@
            == "Error while parsing face coordinate: "@ + k.message_spec(),
        FaceLine::WrongSlashes => e matches Error::MeshParse(s) && s@
            == "Amount of elements per face specification should be 3 in format a/b/c."@,
        _ => false,
    }
}

/// What reading a face line gives, in executable form.
pub enum FaceParse {
    /// The vertex indices of the face, counted from zero.
    Faces(Vec<u32>),
    /// The line cannot be read.
    Invalid(Error),
    /// A field names vertex 0 (see `FaceLine::ZeroIndex`).
    ZeroIndex,
}

/// Whether an executable face reading agrees with the specification.
pub open spec fn face_parse_matches(p: FaceParse, x: FaceLine) -> bool {
    match p {
        FaceParse::Faces(v) => x == FaceLine::Faces(v@),
        FaceParse::Invalid(e) => face_error_spec(x, e),
        FaceParse::ZeroIndex => x == FaceLine::ZeroIndex,
    }
}

/// Whether a line describes a vertex (starts with `v `).
pub fn is_vertex_line(line: &str) -> (res: bool)
    ensures
        res == is_vertex_line_spec(line@),
{
    let v = chars_of(line);
    starts_with_str(v.as_slice(), "v ")
}

/// Whether a line describes a face (starts with `f `).
pub fn is_face_line(line: &str) -> (res: bool)
    ensures
        res == is_face_line_spec(line@),
{
    let v = chars_of(line);
    starts_with_str(v.as_slice(), "f ")
}

/// The fields of a line after its leading keyword.
pub fn line_fields(line: &str) -> (res: Vec<String>)
    ensures
        string_views(res@) == obj_fields(line@),
{
    let v = chars_of(line);
    let parts = split_chars(v.as_slice(), ' ');
    let mut res: Vec<String> = Vec::new();
    for i in 1..parts.len()
        invariant
            1 <= parts.len(),
            views(parts@) == split_spec(line@, ' '),
            res@.len() == i - 1,
            forall|j: int| 0 <= j < i - 1 ==> #[trigger] res@[j]@ == parts@[j + 1]@,
    {
        let s = string_of(parts[i].as_slice());
        res.push(s);
    }
    assert(string_views(res@) =~= obj_fields(line@)) by {
        assert forall|j: int| 0 <= j < res@.len() implies #[trigger] string_views(res@)[j] == obj_fields(line@)[j] by {
            assert(views(parts@)[j + 1] == parts@[j + 1]@);
        }
    }
    res
}

/// Reads one face field `a/b/c`.
fn parse_face_field(f: &[char]) -> (res: Result<u32, FaceParse>)
    ensures
        match res {
            Ok(v) => face_field_spec(f@) == Ok::<u32, FaceLine>(v),
            Err(p) => face_field_spec(f@) matches Err(x) && face_parse_matches(p, x)
                && !(p is Faces),
        },
{
    let fp = split_chars(f, '/');
    assert(fp@[0]@ == split_spec(f@, '/')[0]);
    match parse_u32(fp[0].as_slice()) {
        Err(k) => {
            let mut msg = String::from_str("Error while parsing face coordinate: ");
            let km = k.message();
            crate::text::push_str(&mut msg, km.as_str());
            Err(FaceParse::Invalid(Error::MeshParse(msg)))
        },
        Ok(v) => {
            if fp.len() != 3 {
                Err(
                    FaceParse::Invalid(
                        Error::MeshParse(
                            String::from_str(
                                "Amount of elements per face specification should be 3 in format a/b/c.",
                            ),
                        ),
                    ),
                )
            } else if v == 0 {
                Err(FaceParse::ZeroIndex)
            } else {
                Ok(v - 1)
            }
        },
    }
}

proof fn lemma_face_fields_prefix(fs: Seq<Seq<char>>, i: int, acc: Seq<u32>)
    requires
        0 <= i <= fs.len(),
        acc.len() == i,
        forall|j: int| 0 <= j < i ==> face_field_spec(#[trigger] fs[j]) == Ok::<u32, FaceLine>(acc[j]),
    ensures
        face_fields_spec(fs) == (match face_fields_spec(fs.skip(i)) {
            FaceLine::Faces(r) => FaceLine::Faces(acc + r),
            x => x,
        }),
    decreases i,
{
    if i > 0 {
        let fs1 = fs.drop_first();
        assert forall|j: int| 0 <= j < i - 1 implies face_field_spec(#[trigger] fs1[j])
            == Ok::<u32, FaceLine>(acc.drop_first()[j]) by {
            assert(fs1[j] == fs[j + 1]);
        }
        lemma_face_fields_prefix(fs1, i - 1, acc.drop_first());
        assert(fs1.skip(i - 1) =~= fs.skip(i));
        assert(face_field_spec(fs[0]) == Ok::<u32, FaceLine>(acc[0]));
        match face_fields_spec(fs.skip(i)) {
            FaceLine::Faces(r) => {
                assert(seq![acc[0]] + (acc.drop_first() + r) =~= acc + r);
            },
            _ => {},
        }
    } else {
        assert(fs.skip(0) =~= fs);
        assert(acc =~= Seq::<u32>::empty());
        match face_fields_spec(fs) {
            FaceLine::Faces(r) => {
                assert(acc + r =~= r);
            },
            _ => {},
        }
    }
}

/// Reads a face line: the three zero-based vertex indices it names, or why
/// it cannot be read.
pub fn parse_face_line(line: &str) -> (res: FaceParse)
    ensures
        face_parse_matches(res, face_line_spec(line@)),
{
    let v = chars_of(line);
    let parts = split_chars(v.as_slice(), ' ');
    assert(views(parts@).len() == parts@.len());
    if parts.len() != 4 {
        return FaceParse::Invalid(
            Error::MeshParse(String::from_str("Amount of face specificating elements should be 3.")),
        );
    }
    let ghost fs = obj_fields(line@);
    assert(fs.len() == 3);
    let mut faces: Vec<u32> = Vec::new();
    for i in 1..4usize
        invariant
            parts.len() == 4,
            views(parts@) == split_spec(line@, ' '),
            fs == obj_fields(line@),
            fs.len() == 3,
            faces@.len() == i - 1,
            forall|j: int| 0 <= j < i - 1 ==> face_field_spec(#[trigger] fs[j]) == Ok::<u32, FaceLine>(
                faces@[j],
            ),
    {
        assert(parts@[i as int]@ == fs[i - 1]);
        match parse_face_field(parts[i].as_slice()) {
            Ok(x) => {
                faces.push(x);
            },
            Err(p) => {
                proof {
                    lemma_face_fields_prefix(fs, i - 1, faces@);
                    assert(fs.skip(i - 1)[0] == fs[i - 1]);
                    assert(face_fields_spec(fs.skip(i - 1)) == face_field_spec(fs[i - 1])->Err_0);
                }
                return p;
            },
        }
    }
    proof {
        lemma_face_fields_prefix(fs, 3, faces@);
        assert(fs.skip(3).len() == 0);
        assert(faces@ + Seq::<u32>::empty() =~= faces@);
    }
    FaceParse::Faces(faces)
}

/// Error kinds in which vertex lines fail the arity check.
pub open spec fn vertex_arity_error_spec(e: Error) -> bool {
    e matches Error::MeshParse(s) && s@ == "A vertex line should contain 3 elements only"@
}

/// A vertex line must hold exactly three coordinates; `count` is how many
/// it holds once each has been read as a number.
pub fn check_vertex_arity(count: usize) -> (res: Result<(), Error>)
    ensures
        res is Ok <==> count == 3,
        res matches Err(e) ==> vertex_arity_error_spec(e),
{
    if count != 3 {
        return Err(
            Error::MeshParse(String::from_str("A vertex line should contain 3 elements only")),
        );
    }
    Ok(())
}

/// Whether a file name has the `.obj` extension meshes must have.
pub fn has_obj_extension(file: &str) -> (res: bool)
    ensures
        res == ends_with_spec(file@, ".obj"@),
{
    let v = chars_of(file);
    ends_with_str(v.as_slice(), ".obj")
}

/// A vertex line must split into four space-separated pieces (the keyword
/// and three numbers).
pub fn vertex_checker(line: &str) -> (res: Result<bool, &'static str>)
    ensures
        res is Ok <==> split_spec(line@, ' ').len() == 4,
        res matches Ok(b) ==> b,
        res matches Err(m) ==> m@ == "Amount of numbers per vertex should be 3."@,
{
    let v = chars_of(line);
    let parts = split_chars(v.as_slice(), ' ');
    assert(views(parts@).len() == parts@.len());
    if parts.len() != 4 {
        return Err("Amount of numbers per vertex should be 3.");
    }
    Ok(true)
}

/// Every field of a face line (the pieces after its keyword) splits into
/// three `/`-separated pieces.
pub open spec fn all_fields_have_three_parts(fields: Seq<Seq<char>>) -> bool {
    forall|i: int| 0 <= i < fields.len() ==> #[trigger] split_spec(fields[i], '/').len() == 3
}

/// A face line must hold three fields after its keyword, each of the form
/// `a/b/c` (three `/`-separated pieces).
pub fn face_checker(line: &str) -> (res: Result<bool, &'static str>)
    ensures
        res is Ok <==> (obj_fields(line@).len() == 3 && all_fields_have_three_parts(
            obj_fields(line@),
        )),
        res matches Ok(b) ==> b,
        res matches Err(m) ==> (obj_fields(line@).len() != 3 && m@
            == "Amount of face specification elements should be 3."@) || (obj_fields(line@).len()
            == 3 && m@ == "Amount of elements per face specification should be 3 in format a/b/c."@),
{
    let v = chars_of(line);
    let parts = split_chars(v.as_slice(), ' ');
    assert(views(parts@).len() == parts@.len());
    if parts.len() != 4 {
        return Err("Amount of face specification elements should be 3.");
    }
    let ghost fs = obj_fields(line@);
    for i in 1..parts.len()
        invariant
            parts.len() == 4,
            views(parts@) == split_spec(line@, ' '),
            fs == obj_fields(line@),
            fs.len() == 3,
            forall|j: int| 0 <= j < i - 1 ==> #[trigger] split_spec(fs[j], '/').len() == 3,
    {
        let fp = split_chars(parts[i].as_slice(), '/');
        assert(parts@[i as int]@ == fs[i - 1]);
        if fp.len() != 3 {
            assert(split_spec(fs[i - 1], '/').len() != 3);
            return Err("Amount of elements per face specification should be 3 in format a/b/c.");
        }
    }
    Ok(true)
}

/// The vertex index of a face field read loosely: the text before its first
/// `/`, counted from zero. None when that text is not a number no larger
/// than `max`, or is 0.
pub open spec fn loose_index_spec(f: Seq<char>, max: int) -> Option<int> {
    match parse_unsigned_spec(split_spec(f, '/')[0], max) {
        Ok(v) => if v >= 1 {
            Some(v - 1)
        } else {
            None
        },
        Err(_) => None,
    }
}

/// The loose indices of all the fields, in order; none if one fails.
pub open spec fn loose_indices_spec(fs: Seq<Seq<char>>, max: int) -> Option<Seq<int>>
    decreases fs.len(),
{
    if fs.len() == 0 {
        Some(Seq::empty())
    } else {
        match (loose_indices_spec(fs.drop_last(), max), loose_index_spec(fs.last(), max)) {
            (Some(r), Some(v)) => Some(r.push(v)),
            _ => None,
        }
    }
}

/// Reads every field of a face line loosely (any number of fields, the
/// index before the first `/` of each), as indices counted from zero no
/// larger than `max - 1`. None when a field's index is not a number no
/// larger than `max` or is 0.
pub fn loose_face_indices(line: &str, max: u64) -> (res: Option<Vec<u64>>)
    ensures
        match res {
            Some(v) => loose_indices_spec(obj_fields(line@), max as int) == Some(
                v@.map_values(|x: u64| x as int),
            ),
            None => loose_indices_spec(obj_fields(line@), max as int) is None,
        },
{
    let v = chars_of(line);
    let parts = split_chars(v.as_slice(), ' ');
    let ghost fs = obj_fields(line@);
    let mut res: Vec<u64> = Vec::new();
    for i in 1..parts.len()
        invariant
            1 <= parts.len(),
            views(parts@) == split_spec(line@, ' '),
            fs == obj_fields(line@),
            fs.len() == parts.len() - 1,
            loose_indices_spec(fs.take(i - 1), max as int) == Some(
                res@.map_values(|x: u64| x as int),
            ),
    {
        assert(parts@[i as int]@ == fs[i - 1]);
        assert(fs.take(i as int).drop_last() =~= fs.take(i - 1));
        assert(fs.take(i as int).last() == fs[i - 1]);
        let fp = split_chars(parts[i].as_slice(), '/');
        assert(fp@[0]@ == split_spec(fs[i - 1], '/')[0]);
        match parse_bounded(fp[0].as_slice(), max) {
            Ok(x) => {
                if x == 0 {
                    proof {
                        lemma_loose_prefix_none(fs, i as int, max as int);
                    }
                    return None;
                }
                let ghost before = res@;
                res.push(x - 1);
                assert(res@.map_values(|y: u64| y as int) =~= before.map_values(|y: u64| y as int).push(
                    x - 1,
                ));
            },
            Err(_) => {
                proof {
                    lemma_loose_prefix_none(fs, i as int, max as int);
                }
                return None;
            },
        }
    }
    assert(fs.take(parts.len() - 1) =~= fs);
    Some(res)
}

/// Once a prefix of the fields fails, all of them fail.
proof fn lemma_loose_prefix_none(fs: Seq<Seq<char>>, n: int, max: int)
    requires
        0 <= n <= fs.len(),
        loose_indices_spec(fs.take(n), max) is None,
    ensures
        loose_indices_spec(fs, max) is None,
    decreases fs.len() - n,
{
    if n < fs.len() {
        assert(fs.take(n + 1).drop_last() =~= fs.take(n));
        lemma_loose_prefix_none(fs, n + 1, max);
    } else {
        assert(fs.take(n) =~= fs);
    }
}

} // verus!
