//! The bitmap-font description (`.fnt`, text form) the window writes with:
//! an `info` line, a `common` line, a `page` line, a `chars` line and one
//! line per character, each made of `key=value` properties.
use vstd::prelude::*;
use crate::error::Error;
use crate::numbers::{IntErrorKind, parse_u32, parse_usize, parse_unsigned_spec};
use crate::text::{lemma_views_push, lemma_string_views_push, copy_chars, chars_of, chars_eq, chars_eq_str, push_chars, remove_char, remove_char_spec, split_chars, split_spec, string_of, string_views, trim_chars, trim_spec, views};

verus! {

/// The key and value of a `key=value` property: the first two pieces of
/// splitting on `=`. A property without `=` has none.
pub open spec fn key_value_spec(token: Seq<char>) -> Option<(Seq<char>, Seq<char>)> {
    let kv = split_spec(token, '=');
    if kv.len() >= 2 {
        Some((kv[0], kv[1]))
    } else {
        None
    }
}

/// The map of a list of properties, a later key replacing an earlier one;
/// none if a property has no `=`.
pub open spec fn properties_spec(tokens: Seq<Seq<char>>) -> Option<Map<Seq<char>, Seq<char>>>
    decreases tokens.len(),
{
    if tokens.len() == 0 {
        Some(Map::empty())
    } else {
        match (properties_spec(tokens.drop_last()), key_value_spec(tokens.last())) {
            (Some(m), Some(kv)) => Some(m.insert(kv.0, kv.1)),
            _ => None,
        }
    }
}

/// The key and value of a `key=value` property, or none without `=`.
pub fn key_value(token: &str) -> (res: Option<(String, String)>)
    ensures
        match res {
            Some(kv) => key_value_spec(token@) == Some((kv.0@, kv.1@)),
            None => key_value_spec(token@) is None,
        },
{
    let t = chars_of(token);
    key_value_chars(t.as_slice())
}

fn key_value_chars(t: &[char]) -> (res: Option<(String, String)>)
    ensures
        match res {
            Some(kv) => key_value_spec(t@) == Some((kv.0@, kv.1@)),
            None => key_value_spec(t@) is None,
        },
{
    let kv = split_chars(t, '=');
    assert(views(kv@).len() == kv@.len());
    if kv.len() >= 2 {
        assert(kv@[0]@ == split_spec(t@, '=')[0]);
        assert(kv@[1]@ == split_spec(t@, '=')[1]);
        Some((string_of(kv[0].as_slice()), string_of(kv[1].as_slice())))
    } else {
        None
    }
}

/// Properties by key, a later key replacing an earlier one.
#[derive(Debug)]
pub struct PropertyMap {
    keys: Vec<Vec<char>>,
    values: Vec<Vec<char>>,
}

impl PropertyMap {
    /// The properties, as a map from key to value.
    pub closed spec fn view_map(&self) -> Map<Seq<char>, Seq<char>> {
        Map::new(
            |k: Seq<char>| views(self.keys@).contains(k),
            |k: Seq<char>| views(self.values@)[views(self.keys@).index_of(k)],
        )
    }

    /// Each key is held once, with its value at the same position.
    pub closed spec fn wf(&self) -> bool {
        &&& self.keys@.len() == self.values@.len()
        &&& views(self.keys@).no_duplicates()
    }

    /// No properties.
    pub fn new() -> (res: PropertyMap)
        ensures
            res.wf(),
            res.view_map() == Map::<Seq<char>, Seq<char>>::empty(),
    {
        let res = PropertyMap { keys: Vec::new(), values: Vec::new() };
        assert(views(res.keys@) =~= Seq::<Seq<char>>::empty());
        assert(res.view_map() =~= Map::<Seq<char>, Seq<char>>::empty());
        res
    }

    /// The position of `k` among the keys, if it is one.
    fn position(&self, k: &[char]) -> (res: Option<usize>)
        requires
            self.wf(),
        ensures
            match res {
                Some(i) => i < self.keys@.len() && self.keys@[i as int]@ == k@ && views(
                    self.keys@,
                ).index_of(k@) == i,
                None => !views(self.keys@).contains(k@),
            },
    {
        for i in 0..self.keys.len()
            invariant
                self.wf(),
                forall|j: int| 0 <= j < i ==> views(self.keys@)[j] != k@,
        {
            assert(views(self.keys@)[i as int] == self.keys@[i as int]@);
            if chars_eq(self.keys[i].as_slice(), k) {
                proof {
                    let s = views(self.keys@);
                    assert(s.contains(k@));
                    s.index_of_first_ensures(k@);
                    assert(s.index_of(k@) == i);
                }
                return Some(i);
            }
        }
        None
    }

    /// Sets the value of key `k` to `v`.
    pub fn insert(&mut self, k: &[char], v: &[char])
        requires
            old(self).wf(),
        ensures
            final(self).wf(),
            final(self).view_map() == old(self).view_map().insert(k@, v@),
    {
        let ghost old_map = self.view_map();
        match self.position(k) {
            Some(i) => {
                let ghost ks = views(self.keys@);
                let ghost vs = views(self.values@);
                self.values.set(i, copy_chars(v));
                assert(views(self.keys@) == ks);
                assert(views(self.values@) =~= vs.update(i as int, v@));
                assert(ks[i as int] == k@);
                assert(ks.contains(k@));
                assert(self.view_map().dom() =~= old_map.insert(k@, v@).dom());
                assert(self.view_map() =~= old_map.insert(k@, v@)) by {
                    assert forall|x: Seq<char>| #[trigger] ks.contains(x) implies self.view_map()[x]
                        == old_map.insert(k@, v@)[x] by {
                        if x != k@ {
                            let j = ks.index_of(x);
                            ks.index_of_first_ensures(x);
                            assert(j != i);
                        }
                    }
                }
            },
            None => {
                let ghost ks = views(self.keys@);
                let ghost vs = views(self.values@);
                self.keys.push(copy_chars(k));
                self.values.push(copy_chars(v));
                assert(views(self.keys@) =~= ks.push(k@));
                assert(views(self.values@) =~= vs.push(v@));
                assert(self.view_map() =~= old_map.insert(k@, v@)) by {
                    let ks2 = views(self.keys@);
                    assert forall|x: Seq<char>| ks2.contains(x) == (ks.contains(x) || x == k@) by {
                        if ks2.contains(x) && x != k@ {
                            let j = choose|j: int| 0 <= j < ks2.len() && ks2[j] == x;
                            assert(ks[j] == x);
                        }
                        if x == k@ {
                            assert(ks2[ks.len() as int] == x);
                        }
                        if ks.contains(x) {
                            let j = choose|j: int| 0 <= j < ks.len() && ks[j] == x;
                            assert(ks2[j] == x);
                        }
                    }
                    assert forall|x: Seq<char>| #[trigger] ks2.contains(x) implies self.view_map()[x]
                        == old_map.insert(k@, v@)[x] by {
                        ks2.index_of_first_ensures(x);
                        if x == k@ {
                            assert(ks2[ks.len() as int] == x);
                            assert(ks2.index_of(x) == ks.len());
                        } else {
                            ks.index_of_first_ensures(x);
                            let j = ks.index_of(x);
                            assert(ks2[j] == x);
                            assert(ks2.index_of(x) == j);
                        }
                    }
                }
                assert(views(self.keys@).no_duplicates());
            },
        }
    }

    /// The value of key `k`, if it has one.
    pub fn get(&self, k: &str) -> (res: Option<Vec<char>>)
        requires
            self.wf(),
        ensures
            match res {
                Some(v) => self.view_map().contains_key(k@) && self.view_map()[k@] == v@,
                None => !self.view_map().contains_key(k@),
            },
    {
        let kc = chars_of(k);
        match self.position(kc.as_slice()) {
            Some(i) => {
                assert(views(self.values@)[i as int] == self.values@[i as int]@);
                assert(views(self.keys@)[i as int] == self.keys@[i as int]@);
                assert(views(self.keys@).contains(kc@));
                Some(copy_chars(self.values[i].as_slice()))
            },
            None => None,
        }
    }
}

/// Reading a key after setting it gives the value set, and leaves every
/// other key as it was.
pub proof fn law_insert_then_get(
    before: PropertyMap,
    after: PropertyMap,
    k: Seq<char>,
    v: Seq<char>,
    other: Seq<char>,
)
    requires
        after.view_map() == before.view_map().insert(k, v),
    ensures
        after.view_map().contains_key(k),
        after.view_map()[k] == v,
        other != k ==> after.view_map().contains_key(other) == before.view_map().contains_key(other),
        other != k && before.view_map().contains_key(other) ==> after.view_map()[other]
            == before.view_map()[other],
{
}

/// The property map of a list of `key=value` texts; none if one has no `=`.
fn properties_from(tokens: &Vec<Vec<char>>) -> (res: Option<PropertyMap>)
    ensures
        match res {
            Some(m) => m.wf() && properties_spec(views(tokens@)) == Some(m.view_map()),
            None => properties_spec(views(tokens@)) is None,
        },
{
    let mut m = PropertyMap::new();
    for i in 0..tokens.len()
        invariant
            m.wf(),
            properties_spec(views(tokens@).take(i as int)) == Some(m.view_map()),
    {
        assert(views(tokens@)[i as int] == tokens@[i as int]@);
        assert(views(tokens@).take(i + 1).drop_last() =~= views(tokens@).take(i as int));
        assert(views(tokens@).take(i + 1).last() == tokens@[i as int]@);
        let kv = split_chars(tokens[i].as_slice(), '=');
        assert(views(kv@).len() == kv@.len());
        if kv.len() < 2 {
            proof {
                lemma_properties_prefix_none(views(tokens@), i + 1);
            }
            return None;
        }
        assert(kv@[0]@ == split_spec(tokens@[i as int]@, '=')[0]);
        assert(kv@[1]@ == split_spec(tokens@[i as int]@, '=')[1]);
        m.insert(kv[0].as_slice(), kv[1].as_slice());
    }
    assert(views(tokens@).take(tokens.len() as int) =~= views(tokens@));
    Some(m)
}

proof fn lemma_properties_prefix_none(tokens: Seq<Seq<char>>, n: int)
    requires
        0 <= n <= tokens.len(),
        properties_spec(tokens.take(n)) is None,
    ensures
        properties_spec(tokens) is None,
    decreases tokens.len() - n,
{
    if n < tokens.len() {
        assert(tokens.take(n + 1).drop_last() =~= tokens.take(n));
        lemma_properties_prefix_none(tokens, n + 1);
    } else {
        assert(tokens.take(n) =~= tokens);
    }
}

/// The pieces of a line after its leading keyword, split on single spaces.
fn fields_after_keyword(line: &[char]) -> (res: Vec<Vec<char>>)
    ensures
        views(res@) == split_spec(line@, ' ').drop_first(),
{
    let parts = split_chars(line, ' ');
    let mut res: Vec<Vec<char>> = Vec::new();
    for i in 1..parts.len()
        invariant
            1 <= parts@.len(),
            views(parts@) == split_spec(line@, ' '),
            views(res@) == views(parts@).subrange(1, i as int),
    {
        let ghost old_res = res@;
        res.push(copy_chars(parts[i].as_slice()));
        proof {
            lemma_views_push(old_res, res@[res@.len() - 1]);
            assert(res@ == old_res.push(res@[res@.len() - 1]));
            assert(views(parts@)[i as int] == parts@[i as int]@);
        }
        assert(views(res@) =~= views(parts@).subrange(1, i + 1));
    }
    assert(views(parts@).subrange(1, parts@.len() as int) =~= views(parts@).drop_first());
    res
}

/// The `info` line: the font name between the first two quotes, and the
/// properties after the second quote (trimmed, split on single spaces).
pub open spec fn info_line_spec(line: Seq<char>) -> Option<(Seq<char>, Map<Seq<char>, Seq<char>>)> {
    let pieces = split_spec(line, '"');
    if pieces.len() < 3 {
        None
    } else {
        match properties_spec(split_spec(trim_spec(pieces[2]), ' ')) {
            Some(m) => Some((pieces[1], m)),
            None => None,
        }
    }
}

/// A `common`, `page` or other property line: the properties after the
/// leading keyword, split on single spaces.
pub open spec fn property_line_spec(line: Seq<char>) -> Option<Map<Seq<char>, Seq<char>>> {
    properties_spec(split_spec(line, ' ').drop_first())
}

/// Reads the `info` line: the font name and the properties. None when the
/// line has fewer than two quotes or a property without `=`.
pub fn parse_info_line(line: &str) -> (res: Option<(String, PropertyMap)>)
    ensures
        match res {
            Some(r) => r.1.wf() && info_line_spec(line@) == Some((r.0@, r.1.view_map())),
            None => info_line_spec(line@) is None,
        },
{
    let l = chars_of(line);
    let pieces = split_chars(l.as_slice(), '"');
    assert(views(pieces@).len() == pieces@.len());
    if pieces.len() < 3 {
        return None;
    }
    assert(pieces@[1]@ == split_spec(line@, '"')[1]);
    assert(pieces@[2]@ == split_spec(line@, '"')[2]);
    let trimmed = trim_chars(pieces[2].as_slice());
    let tokens = split_chars(trimmed.as_slice(), ' ');
    match properties_from(&tokens) {
        Some(m) => Some((string_of(pieces[1].as_slice()), m)),
        None => None,
    }
}

/// Reads a property line (see `property_line_spec`). None when a property
/// has no `=`.
pub fn parse_property_line(line: &str) -> (res: Option<PropertyMap>)
    ensures
        match res {
            Some(m) => m.wf() && property_line_spec(line@) == Some(m.view_map()),
            None => property_line_spec(line@) is None,
        },
{
    let l = chars_of(line);
    let tokens = fields_after_keyword(l.as_slice());
    properties_from(&tokens)
}

/// What reading the `chars` line gives: its `count` property, once every
/// property value has been read, from left to right, as a `usize`.
pub enum CountLine {
    /// The number of characters.
    Count(int),
    /// The line has no `count` property.
    Missing,
    /// A property value is not a `usize`.
    BadValue(IntErrorKind),
    /// A property has no `=`.
    Malformed,
}

/// Reads the properties of the `chars` line from left to right as `usize`
/// values; the first failure decides. The result holds the last `count`.
pub open spec fn count_values_spec(tokens: Seq<Seq<char>>) -> CountLine
    decreases tokens.len(),
{
    if tokens.len() == 0 {
        CountLine::Missing
    } else {
        match count_values_spec(tokens.drop_last()) {
            CountLine::BadValue(k) => CountLine::BadValue(k),
            CountLine::Malformed => CountLine::Malformed,
            prev => match key_value_spec(tokens.last()) {
                None => CountLine::Malformed,
                Some(kv) => match parse_unsigned_spec(kv.1, usize::MAX as int) {
                    Err(k) => CountLine::BadValue(k),
                    Ok(v) => if kv.0 == "count"@ {
                        CountLine::Count(v)
                    } else {
                        prev
                    },
                },
            },
        }
    }
}

/// What reading the `chars` line gives (see `count_values_spec`).
pub open spec fn count_line_spec(line: Seq<char>) -> CountLine {
    count_values_spec(split_spec(line, ' ').drop_first())
}

/// Reads the number of characters from the `chars` line. None when a
/// property has no `=`; an error when a value is not a `usize` or there is no
/// `count`.
pub fn parse_count_line(line: &str) -> (res: Option<Result<usize, Error>>)
    ensures
        match count_line_spec(line@) {
            CountLine::Count(c) => res == Some(Ok::<usize, Error>(c as usize)),
            CountLine::Missing => res matches Some(Err(Error::Custom(m))) && m@
                == "Could not find propperty 'count' on text file"@,
            CountLine::BadValue(k) => res matches Some(Err(Error::ParseInt(k2))) && k2 == k,
            CountLine::Malformed => res is None,
        },
{
    let l = chars_of(line);
    let tokens = fields_after_keyword(l.as_slice());
    let mut count: Option<usize> = None;
    for i in 0..tokens.len()
        invariant
            views(tokens@) == split_spec(line@, ' ').drop_first(),
            match count_values_spec(views(tokens@).take(i as int)) {
                CountLine::Count(c) => count == Some(c as usize) && 0 <= c <= usize::MAX,
                CountLine::Missing => count is None,
                _ => false,
            },
    {
        assert(views(tokens@)[i as int] == tokens@[i as int]@);
        assert(views(tokens@).take(i + 1).drop_last() =~= views(tokens@).take(i as int));
        assert(views(tokens@).take(i + 1).last() == tokens@[i as int]@);
        let kv = split_chars(tokens[i].as_slice(), '=');
        assert(views(kv@).len() == kv@.len());
        if kv.len() < 2 {
            proof {
                let pre = views(tokens@).take(i + 1);
                assert(key_value_spec(pre.last()) is None);
                assert(count_values_spec(pre.drop_last()) is Count || count_values_spec(pre.drop_last()) is Missing);
                assert(count_values_spec(pre) is Malformed);
                lemma_count_prefix(views(tokens@), i + 1);
                assert(count_values_spec(views(tokens@)) is Malformed);
                assert(views(tokens@) == split_spec(line@, ' ').drop_first());
                assert(count_line_spec(line@) is Malformed);
            }
            return None;
        }
        assert(kv@[0]@ == split_spec(tokens@[i as int]@, '=')[0]);
        assert(kv@[1]@ == split_spec(tokens@[i as int]@, '=')[1]);
        match parse_usize(kv[1].as_slice()) {
            Err(k) => {
                proof {
                    lemma_count_prefix(views(tokens@), i + 1);
                }
                return Some(Err(Error::ParseInt(k)));
            },
            Ok(v) => {
                if chars_eq_str(kv[0].as_slice(), "count") {
                    count = Some(v);
                }
            },
        }
    }
    assert(views(tokens@).take(tokens.len() as int) =~= views(tokens@));
    match count {
        Some(c) => Some(Ok(c)),
        None => Some(Err(Error::Custom(String::from_str("Could not find propperty 'count' on text file")))),
    }
}

proof fn lemma_count_prefix(tokens: Seq<Seq<char>>, n: int)
    requires
        0 <= n <= tokens.len(),
        count_values_spec(tokens.take(n)) is BadValue || count_values_spec(tokens.take(n)) is Malformed,
    ensures
        count_values_spec(tokens) == count_values_spec(tokens.take(n)),
    decreases tokens.len() - n,
{
    if n < tokens.len() {
        assert(tokens.take(n + 1).drop_last() =~= tokens.take(n));
        lemma_count_prefix(tokens, n + 1);
    } else {
        assert(tokens.take(n) =~= tokens);
    }
}

/// The non-empty pieces of a line split on single spaces.
pub open spec fn nonempty_pieces(line: Seq<char>) -> Seq<Seq<char>> {
    split_spec(line, ' ').filter(|p: Seq<char>| p.len() > 0)
}

/// What a line after the `chars` line is: none when its first word is not
/// `char`, else the properties after that word; an error when the line has
/// no word.
pub fn character_line_fields(line: &str) -> (res: Result<Option<Vec<String>>, Error>)
    ensures
        nonempty_pieces(line@).len() == 0 ==> (res matches Err(Error::Parse(m)) && m@
            == "Could not parse text file propperly"@),
        nonempty_pieces(line@).len() > 0 && nonempty_pieces(line@)[0] != "char"@ ==> res matches Ok(
            None,
        ),
        nonempty_pieces(line@).len() > 0 && nonempty_pieces(line@)[0] == "char"@ ==> (res matches Ok(
            Some(v),
        ) && string_views(v@) == nonempty_pieces(line@).drop_first()),
{
    let l = chars_of(line);
    let parts = split_chars(l.as_slice(), ' ');
    let ghost all = views(parts@);
    let mut kept: Vec<Vec<char>> = Vec::new();
    for i in 0..parts.len()
        invariant
            all == views(parts@),
            all == split_spec(line@, ' '),
            views(kept@) == all.take(i as int).filter(|p: Seq<char>| p.len() > 0),
    {
        proof {
            let f = |p: Seq<char>| p.len() > 0;
            assert(all.take(i + 1).drop_last() =~= all.take(i as int));
            all.take(i as int).lemma_filter_push(all[i as int], f);
            assert(all.take(i as int).push(all[i as int]) =~= all.take(i + 1));
        }
        assert(parts@[i as int]@ == all[i as int]);
        if parts[i].len() > 0 {
            let ghost old_kept = kept@;
            kept.push(copy_chars(parts[i].as_slice()));
            proof {
                lemma_views_push(old_kept, kept@[kept@.len() - 1]);
                assert(kept@ == old_kept.push(kept@[kept@.len() - 1]));
            }
            assert(views(kept@) =~= all.take(i + 1).filter(|p: Seq<char>| p.len() > 0));
        } else {
            assert(views(kept@) =~= all.take(i + 1).filter(|p: Seq<char>| p.len() > 0));
        }
    }
    assert(all.take(parts@.len() as int) =~= all);
    assert(views(kept@).len() == kept@.len());
    if kept.len() == 0 {
        return Err(Error::Parse("Could not parse text file propperly"));
    }
    assert(kept@[0]@ == nonempty_pieces(line@)[0]);
    if !chars_eq_str(kept[0].as_slice(), "char") {
        return Ok(None);
    }
    let mut res: Vec<String> = Vec::new();
    for i in 1..kept.len()
        invariant
            1 <= kept@.len(),
            views(kept@) == nonempty_pieces(line@),
            string_views(res@) == views(kept@).subrange(1, i as int),
    {
        let ghost old_res = res@;
        res.push(string_of(kept[i].as_slice()));
        proof {
            lemma_string_views_push(old_res, res@[res@.len() - 1]);
            assert(res@ == old_res.push(res@[res@.len() - 1]));
            assert(views(kept@)[i as int] == kept@[i as int]@);
        }
        assert(string_views(res@) =~= views(kept@).subrange(1, i + 1));
    }
    assert(views(kept@).subrange(1, kept@.len() as int) =~= views(kept@).drop_first());
    Ok(Some(res))
}

/// The description of a font, besides its characters and image.
#[derive(Debug)]
pub struct FontMetadata {
    /// Name of the font.
    pub font_type: String,
    /// Size of the font, in points.
    pub font_size: u32,
    /// Whether the font is italic.
    pub is_italic: bool,
    /// Whether the font is bold.
    pub is_bold: bool,
    /// The encoding of the characters.
    pub encoding: String,
    /// Height of a line, in pixels.
    pub line_height: u32,
    /// Number of characters of the font.
    pub character_number: usize,
    /// The image file holding the characters.
    pub texture_file: String,
    /// Width and height of that image, in pixels.
    pub texture_size: (u32, u32),
}

/// A property required to be there, read as a `u32`: missing gives the
/// message `missing`, an unreadable value its integer error.
pub open spec fn required_u32_spec(
    m: Map<Seq<char>, Seq<char>>,
    key: Seq<char>,
) -> Result<int, Option<IntErrorKind>> {
    if !m.contains_key(key) {
        Err(None)
    } else {
        match parse_unsigned_spec(m[key], u32::MAX as int) {
            Ok(v) => Ok(v),
            Err(k) => Err(Some(k)),
        }
    }
}

/// What the metadata of a font is, from the maps of its `info`, `common` and
/// `page` lines and the count of its `chars` line. The properties are looked
/// at in the order: `size`, `bold`, `italic`, `lineHeight`, `scaleW`,
/// `scaleH`, `file`; the first one missing or unreadable decides the error.
pub open spec fn metadata_ok_spec(
    info: Map<Seq<char>, Seq<char>>,
    common: Map<Seq<char>, Seq<char>>,
    page: Map<Seq<char>, Seq<char>>,
) -> bool {
    &&& required_u32_spec(info, "size"@) is Ok
    &&& info.contains_key("bold"@)
    &&& info.contains_key("italic"@)
    &&& required_u32_spec(common, "lineHeight"@) is Ok
    &&& required_u32_spec(common, "scaleW"@) is Ok
    &&& required_u32_spec(common, "scaleH"@) is Ok
    &&& page.contains_key("file"@)
}

/// The error for a required property that is missing or unreadable.
pub open spec fn required_error_spec(r: Result<int, Option<IntErrorKind>>, missing: Seq<char>, e: Error) -> bool {
    match r {
        Err(None) => e matches Error::Custom(m) && m@ == missing,
        Err(Some(k)) => e == Error::ParseInt(k),
        Ok(_) => false,
    }
}

/// The error when the metadata cannot be made (see `metadata_ok_spec`).
pub open spec fn metadata_error_spec(
    info: Map<Seq<char>, Seq<char>>,
    common: Map<Seq<char>, Seq<char>>,
    page: Map<Seq<char>, Seq<char>>,
    e: Error,
) -> bool {
    if !(required_u32_spec(info, "size"@) is Ok) {
        required_error_spec(
            required_u32_spec(info, "size"@),
            "Could not find 'size' property on text file"@,
            e,
        )
    } else if !info.contains_key("bold"@) {
        e matches Error::Custom(m) && m@ == "Could not find property 'bold' on text file"@
    } else if !info.contains_key("italic"@) {
        e matches Error::Custom(m) && m@ == "Could not find property 'bold'"@
    } else if !(required_u32_spec(common, "lineHeight"@) is Ok) {
        required_error_spec(
            required_u32_spec(common, "lineHeight"@),
            "Could not find property 'lineHEight' on text file"@,
            e,
        )
    } else if !(required_u32_spec(common, "scaleW"@) is Ok) {
        required_error_spec(
            required_u32_spec(common, "scaleW"@),
            "Could not find property 'scaleW' on text file"@,
            e,
        )
    } else if !(required_u32_spec(common, "scaleH"@) is Ok) {
        required_error_spec(
            required_u32_spec(common, "scaleH"@),
            "Could not find property 'scaleH' on text file"@,
            e,
        )
    } else {
        e matches Error::Custom(m) && m@ == "Could not find property 'file' on text file"@
    }
}

/// Reads a required `u32` property.
fn required_u32(m: &PropertyMap, key: &str, missing: &str) -> (res: Result<u32, Error>)
    requires
        m.wf(),
    ensures
        match res {
            Ok(v) => required_u32_spec(m.view_map(), key@) == Ok::<int, Option<IntErrorKind>>(
                v as int,
            ),
            Err(e) => required_u32_spec(m.view_map(), key@) is Err && required_error_spec(
                required_u32_spec(m.view_map(), key@),
                missing@,
                e,
            ),
        },
{
    match m.get(key) {
        None => Err(Error::Custom(String::from_str(missing))),
        Some(v) => match parse_u32(v.as_slice()) {
            Ok(x) => Ok(x),
            Err(k) => Err(Error::ParseInt(k)),
        },
    }
}

/// Whether a property has the value `1`.
fn is_one(m: &PropertyMap, key: &str, missing: &str) -> (res: Result<bool, Error>)
    requires
        m.wf(),
    ensures
        match res {
            Ok(b) => m.view_map().contains_key(key@) && b == (m.view_map()[key@] == "1"@),
            Err(e) => !m.view_map().contains_key(key@) && (e matches Error::Custom(s) && s@ == missing@),
        },
{
    match m.get(key) {
        None => Err(Error::Custom(String::from_str(missing))),
        Some(v) => Ok(chars_eq_str(v.as_slice(), "1")),
    }
}

impl FontMetadata {
    /// The metadata of a font from the name and maps of its first three
    /// lines and the count of its `chars` line (see `metadata_ok_spec`). The
    /// bold and italic flags are whether those properties are `1`; the
    /// texture file is the `file` property without its quotes; the encoding
    /// is always `unicode`.
    pub fn from_properties(
        font_type: String,
        info: &PropertyMap,
        common: &PropertyMap,
        page: &PropertyMap,
        count: usize,
    ) -> (res: Result<FontMetadata, Error>)
        requires
            info.wf(),
            common.wf(),
            page.wf(),
        ensures
            res is Ok <==> metadata_ok_spec(info.view_map(), common.view_map(), page.view_map()),
            res matches Ok(f) ==> {
                &&& f.font_type@ == font_type@
                &&& required_u32_spec(info.view_map(), "size"@) == Ok::<int, Option<IntErrorKind>>(
                    f.font_size as int,
                )
                &&& f.is_bold == (info.view_map()["bold"@] == "1"@)
                &&& f.is_italic == (info.view_map()["italic"@] == "1"@)
                &&& f.encoding@ == "unicode"@
                &&& required_u32_spec(common.view_map(), "lineHeight"@) == Ok::<
                    int,
                    Option<IntErrorKind>,
                >(f.line_height as int)
                &&& required_u32_spec(common.view_map(), "scaleW"@) == Ok::<
                    int,
                    Option<IntErrorKind>,
                >(f.texture_size.0 as int)
                &&& required_u32_spec(common.view_map(), "scaleH"@) == Ok::<
                    int,
                    Option<IntErrorKind>,
                >(f.texture_size.1 as int)
                &&& f.texture_file@ == remove_char_spec(page.view_map()["file"@], '"')
                &&& f.character_number == count
            },
            res matches Err(e) ==> metadata_error_spec(
                info.view_map(),
                common.view_map(),
                page.view_map(),
                e,
            ),
    {
        let font_size = required_u32(info, "size", "Could not find 'size' property on text file")?;
        let is_bold = is_one(info, "bold", "Could not find property 'bold' on text file")?;
        let is_italic = is_one(info, "italic", "Could not find property 'bold'")?;
        let line_height = required_u32(
            common,
            "lineHeight",
            "Could not find property 'lineHEight' on text file",
        )?;
        let scale_w = required_u32(common, "scaleW", "Could not find property 'scaleW' on text file")?;
        let scale_h = required_u32(common, "scaleH", "Could not find property 'scaleH' on text file")?;
        let file = match page.get("file") {
            Some(f) => f,
            None => {
                return Err(
                    Error::Custom(String::from_str("Could not find property 'file' on text file")),
                );
            },
        };
        let texture = remove_char(file.as_slice(), '"');
        Ok(
            FontMetadata {
                font_type,
                font_size,
                is_italic,
                is_bold,
                encoding: String::from_str("unicode"),
                line_height,
                character_number: count,
                texture_file: string_of(texture.as_slice()),
                texture_size: (scale_w, scale_h),
            },
        )
    }
}

/// The path of the image of a font: `./assets/` followed by the `file`
/// property of its `page` line without quotes.
pub fn texture_image_path(page: &PropertyMap) -> (res: Result<String, Error>)
    requires
        page.wf(),
    ensures
        page.view_map().contains_key("file"@) ==> (res matches Ok(p) && p@ == "./assets/"@
            + remove_char_spec(page.view_map()["file"@], '"')),
        !page.view_map().contains_key("file"@) ==> (res matches Err(Error::NotFound(m)) && m@
            == "Text image file"@),
{
    match page.get("file") {
        None => Err(Error::NotFound("Text image file")),
        Some(f) => {
            let mut p = String::from_str("./assets/");
            let t = remove_char(f.as_slice(), '"');
            push_chars(&mut p, t.as_slice());
            Ok(p)
        },
    }
}

} // verus!
