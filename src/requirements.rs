//! Skill-level requirements of a recipe, read from the text that a wiki table
//! gives them in, and checked against the player's levels.
use vstd::prelude::*;

use crate::config::Levels;
use crate::helpers::push_char;

verus! {

/// Levels the wiki writes as words rather than numbers.
pub const HIGH_LEVEL: u32 = 80;
pub const DECENT_LEVEL: u32 = 70;

/// The characters with the Unicode `White_Space` property.
pub open spec fn is_ws(c: char) -> bool {
    let u = c as u32;
    (0x9 <= u && u <= 0xd) || u == 0x20 || u == 0x85 || u == 0xa0 || u == 0x1680 || (0x2000 <= u && u <= 0x200a)
        || u == 0x2028 || u == 0x2029 || u == 0x202f || u == 0x205f || u == 0x3000
}

pub fn is_whitespace(c: char) -> (r: bool)
    ensures
        r == is_ws(c),
{
    let u = c as u32;
    (0x9 <= u && u <= 0xd) || u == 0x20 || u == 0x85 || u == 0xa0 || u == 0x1680 || (0x2000 <= u && u <= 0x200a)
        || u == 0x2028 || u == 0x2029 || u == 0x202f || u == 0x205f || u == 0x3000
}

/// `s` without the character `c`.
pub open spec fn without_char(s: Seq<char>, c: char) -> Seq<char>
    decreases s.len(),
{
    if s.len() == 0 {
        s
    } else if s.last() == c {
        without_char(s.drop_last(), c)
    } else {
        without_char(s.drop_last(), c).push(s.last())
    }
}

/// Whether `c` separates pieces: a comma, or white space.
pub open spec fn is_separator(c: char, by_comma: bool) -> bool {
    if by_comma {
        c == ','
    } else {
        is_ws(c)
    }
}

/// Pieces of `s` between separators: the finished pieces, and the piece
/// being read. Splitting at commas keeps empty pieces; splitting at white
/// space drops them.
pub open spec fn split_state(s: Seq<char>, by_comma: bool) -> (Seq<Seq<char>>, Seq<char>)
    decreases s.len(),
{
    if s.len() == 0 {
        (Seq::empty(), Seq::empty())
    } else {
        let (done, cur) = split_state(s.drop_last(), by_comma);
        if is_separator(s.last(), by_comma) {
            if by_comma || cur.len() > 0 {
                (done.push(cur), Seq::empty())
            } else {
                (done, Seq::empty())
            }
        } else {
            (done, cur.push(s.last()))
        }
    }
}

/// The pieces of `s`: between commas (empty ones included), or its words,
/// the longest runs of characters that are not white space.
pub open spec fn pieces(s: Seq<char>, by_comma: bool) -> Seq<Seq<char>> {
    let (done, cur) = split_state(s, by_comma);
    if by_comma || cur.len() > 0 {
        done.push(cur)
    } else {
        done
    }
}

pub open spec fn piece_views(v: Seq<Vec<char>>) -> Seq<Seq<char>> {
    v.map_values(|x: Vec<char>| x@)
}

/// Whether `pat` occurs in `s`.
pub open spec fn contains(s: Seq<char>, pat: Seq<char>) -> bool {
    exists|i: int| 0 <= i && i + pat.len() <= s.len() && #[trigger] s.subrange(i, i + pat.len()) == pat
}

fn string_of(s: &str) -> (r: String)
    ensures
        r@ == s@,
{
    String::from_str(s)
}

fn chars_of(s: &String) -> (r: Vec<char>)
    ensures
        r@ == s@,
{
    let n = s.as_str().unicode_len();
    let mut r: Vec<char> = Vec::new();
    let mut i: usize = 0;
    while i < n
        invariant
            n == s@.len(),
            i <= n,
            r@ == s@.take(i as int),
        decreases n - i,
    {
        r.push(s.as_str().get_char(i));
        assert(r@ =~= s@.take(i + 1));
        i = i + 1;
    }
    assert(s@.take(n as int) =~= s@);
    r
}

/// Whether `pat` occurs in `s`.
pub fn contains_text(s: &Vec<char>, pat: &str) -> (r: bool)
    ensures
        r == contains(s@, pat@),
{
    let p = chars_of(&string_of(pat));
    if p.len() == 0 {
        assert(s@.subrange(0int, 0int + pat@.len()) =~= pat@);
        return true;
    }
    if p.len() > s.len() {
        return false;
    }
    let slen: usize = s.len();
    let mut i: usize = 0;
    while i <= s.len() - p.len()
        invariant
            slen == s@.len(),
            p@ == pat@,
            1 <= p@.len() <= s@.len(),
            i <= s@.len() - p@.len() + 1,
            forall|k: int| 0 <= k < i ==> #[trigger] s@.subrange(k, k + p@.len()) != p@,
        decreases s@.len() - i,
    {
        let mut j: usize = 0;
        let mut same = true;
        while same && j < p.len()
            invariant
                slen == s@.len(),
                i + p@.len() <= s@.len(),
                j <= p@.len(),
                forall|k: int| 0 <= k < j ==> s@[i + k] == p@[k],
                !same ==> j < p@.len() && s@[i + j] != p@[j as int],
            decreases p@.len() - j + (if same { 1int } else { 0int }),
        {
            if s[i + j] == p[j] {
                j = j + 1;
            } else {
                same = false;
            }
        }
        if same {
            assert(s@.subrange(i as int, i + p@.len()) =~= p@);
            return true;
        }
        assert(s@.subrange(i as int, i + p@.len())[j as int] != p@[j as int]);
        i = i + 1;
    }
    false
}

/// Splits `s` at commas or at white space; see `pieces`.
pub fn split_pieces(s: &Vec<char>, by_comma: bool) -> (r: Vec<Vec<char>>)
    ensures
        piece_views(r@) == pieces(s@, by_comma),
{
    let mut done: Vec<Vec<char>> = Vec::new();
    let mut cur: Vec<char> = Vec::new();
    let mut i: usize = 0;
    while i < s.len()
        invariant
            i <= s@.len(),
            (piece_views(done@), cur@) == split_state(s@.take(i as int), by_comma),
        decreases s@.len() - i,
    {
        assert(s@.take(i + 1).drop_last() =~= s@.take(i as int));
        assert(s@.take(i + 1).last() == s@[i as int]);
        let c = s[i];
        let sep = if by_comma { c == ',' } else { is_whitespace(c) };
        if sep {
            if by_comma || cur.len() > 0 {
                let piece = cur;
                cur = Vec::new();
                let ghost before = done@;
                done.push(piece);
                assert(piece_views(done@) =~= piece_views(before).push(piece@));
            } else {
                cur = Vec::new();
            }
        } else {
            cur.push(c);
        }
        i = i + 1;
    }
    assert(s@.take(i as int) =~= s@);
    if by_comma || cur.len() > 0 {
        let ghost before = done@;
        let ghost last = cur@;
        done.push(cur);
        assert(piece_views(done@) =~= piece_views(before).push(last));
    }
    done
}

/// `s` without the character `c`.
pub fn remove_char(s: &Vec<char>, c: char) -> (r: Vec<char>)
    ensures
        r@ == without_char(s@, c),
{
    let mut r: Vec<char> = Vec::new();
    let mut i: usize = 0;
    while i < s.len()
        invariant
            i <= s@.len(),
            r@ == without_char(s@.take(i as int), c),
        decreases s@.len() - i,
    {
        assert(s@.take(i + 1).drop_last() =~= s@.take(i as int));
        assert(s@.take(i + 1).last() == s@[i as int]);
        if s[i] != c {
            r.push(s[i]);
        }
        i = i + 1;
    }
    assert(s@.take(i as int) =~= s@);
    r
}

/// The text of a sequence of characters.
pub fn text_of(s: &Vec<char>) -> (r: String)
    ensures
        r@ == s@,
{
    let mut r = String::new();
    let mut i: usize = 0;
    while i < s.len()
        invariant
            i <= s@.len(),
            r@ == s@.take(i as int),
        decreases s@.len() - i,
    {
        push_char(&mut r, s[i]);
        assert(r@ =~= s@.take(i + 1));
        i = i + 1;
    }
    assert(s@.take(i as int) =~= s@);
    r
}

} // verus!

verus! {

/// Whether some piece from the second on contains `pat`.
pub open spec fn later_piece_contains(ps: Seq<Seq<char>>, pat: Seq<char>) -> bool {
    exists|k: int| 1 <= k < ps.len() && contains(#[trigger] ps[k], pat)
}

/// A level as the wiki writes it, such as "64", "64+", "64 Recommended" or
/// "1,500+ Total level": the level, whether it is only recommended, and
/// whether it is on the total level. Plus signs carry no meaning; "High" and
/// "Decent" stand for fixed levels. `None` for text of any other shape.
pub open spec fn level_of(s: Seq<char>) -> Option<(u32, bool, bool)> {
    let ps = pieces(without_char(s, '+'), false);
    if ps.len() == 0 || ps.len() > 3 {
        None
    } else {
        let digits = without_char(ps[0], ',');
        let number: Option<int> = if contains(digits, "igh"@) {
            Some(HIGH_LEVEL as int)
        } else if contains(digits, "ecent"@) {
            Some(DECENT_LEVEL as int)
        } else {
            crate::helpers::parsed_u32(digits)
        };
        match number {
            None => None,
            Some(n) => Some(
                (n as u32, later_piece_contains(ps, "ecommended"@), later_piece_contains(ps, "Total level"@)),
            ),
        }
    }
}

fn any_later_piece_contains(ps: &Vec<Vec<char>>, pat: &str) -> (r: bool)
    ensures
        r == later_piece_contains(piece_views(ps@), pat@),
{
    let mut k: usize = 1;
    while k < ps.len()
        invariant
            1 <= k,
            forall|j: int| 1 <= j < k && j < ps@.len() ==> !contains(#[trigger] piece_views(ps@)[j], pat@),
        decreases ps@.len() - k,
    {
        if contains_text(&ps[k], pat) {
            assert(piece_views(ps@)[k as int] == ps@[k as int]@);
            return true;
        }
        assert(piece_views(ps@)[k as int] == ps@[k as int]@);
        k = k + 1;
    }
    false
}

/// Skill-level requirements of one skill: the levels, and for each whether it
/// is only recommended and whether it is on the total level.
#[derive(Debug)]
pub struct LevelRequirement {
    pub name: String,
    pub level_list: Vec<u32>,
    pub recommended_list: Vec<bool>,
    pub is_total_level_req_list: Vec<bool>,
}

impl LevelRequirement {
    pub open spec fn wf(&self) -> bool {
        self.recommended_list@.len() == self.level_list@.len()
    }

    pub fn new(name: String, level_list: Vec<u32>, recommended: Vec<bool>, total_level_list: Vec<bool>) -> (r: Self)
        ensures
            r == (LevelRequirement {
                name,
                level_list,
                recommended_list: recommended,
                is_total_level_req_list: total_level_list,
            }),
    {
        LevelRequirement { name, level_list, recommended_list: recommended, is_total_level_req_list: total_level_list }
    }

    /// Reads one level; see `level_of`.
    pub fn parse_level(level_str: &str) -> (r: Option<(u32, bool, bool)>)
        ensures
            r == level_of(level_str@),
    {
        let chars = chars_of(&string_of(level_str));
        let plain = remove_char(&chars, '+');
        let ps = split_pieces(&plain, false);
        if ps.len() == 0 || ps.len() > 3 {
            return None;
        }
        assert(piece_views(ps@)[0] == ps@[0]@);
        let digits = remove_char(&ps[0], ',');
        let number: Option<u32> = if contains_text(&digits, "igh") {
            Some(HIGH_LEVEL)
        } else if contains_text(&digits, "ecent") {
            Some(DECENT_LEVEL)
        } else {
            crate::helpers::parse_u32(text_of(&digits).as_str())
        };
        match number {
            None => None,
            Some(n) => Some((n, any_later_piece_contains(&ps, "ecommended"), any_later_piece_contains(&ps, "Total level"))),
        }
    }
}

} // verus!

verus! {

/// `s` with each "or", read from the left, and each "/" made a comma, so that
/// "70 or 80" and "70/80" list two levels.
pub open spec fn alternatives_as_commas(s: Seq<char>) -> Seq<char>
    decreases s.len(),
{
    if s.len() == 0 {
        s
    } else if s.len() >= 2 && s[0] == 'o' && s[1] == 'r' {
        seq![','] + alternatives_as_commas(s.skip(2))
    } else if s[0] == '/' {
        seq![','] + alternatives_as_commas(s.skip(1))
    } else {
        seq![s[0]] + alternatives_as_commas(s.skip(1))
    }
}

/// The level texts of a list of alternatives: its pieces between commas,
/// leaving out empty ones and single spaces.
pub open spec fn level_texts(s: Seq<char>) -> Seq<Seq<char>> {
    non_blank(pieces(alternatives_as_commas(s), true))
}

/// An empty piece, or a single space.
pub open spec fn blank_piece(p: Seq<char>) -> bool {
    p.len() == 0 || p == seq![' ']
}

/// The pieces that are not blank, in order.
pub open spec fn non_blank(ps: Seq<Seq<char>>) -> Seq<Seq<char>>
    decreases ps.len(),
{
    if ps.len() == 0 {
        ps
    } else if blank_piece(ps.last()) {
        non_blank(ps.drop_last())
    } else {
        non_blank(ps.drop_last()).push(ps.last())
    }
}

/// Every level of a list of alternatives; `None` when one cannot be read.
pub open spec fn span_levels(s: Seq<char>) -> Option<Seq<(u32, bool, bool)>> {
    let texts = level_texts(s);
    if forall|i: int| 0 <= i < texts.len() ==> (#[trigger] level_of(texts[i])) is Some {
        Some(Seq::new(texts.len(), |i: int| level_of(texts[i]).unwrap()))
    } else {
        None
    }
}

fn alternatives_exec(s: &Vec<char>) -> (r: Vec<char>)
    ensures
        r@ == alternatives_as_commas(s@),
{
    let mut r: Vec<char> = Vec::new();
    let mut i: usize = 0;
    assert(s@.skip(0) =~= s@);
    assert(r@ + alternatives_as_commas(s@) =~= alternatives_as_commas(s@));
    while i < s.len()
        invariant
            i <= s@.len(),
            alternatives_as_commas(s@) == r@ + alternatives_as_commas(s@.skip(i as int)),
        decreases s@.len() - i,
    {
        let ghost rest = s@.skip(i as int);
        if i + 1 < s.len() && s[i] == 'o' && s[i + 1] == 'r' {
            assert(rest.skip(2) =~= s@.skip(i + 2));
            r.push(',');
            assert(alternatives_as_commas(s@) =~= r@ + alternatives_as_commas(s@.skip(i + 2)));
            i = i + 2;
        } else if s[i] == '/' {
            assert(rest.skip(1) =~= s@.skip(i + 1));
            r.push(',');
            assert(alternatives_as_commas(s@) =~= r@ + alternatives_as_commas(s@.skip(i + 1)));
            i = i + 1;
        } else {
            assert(rest.skip(1) =~= s@.skip(i + 1));
            r.push(s[i]);
            assert(alternatives_as_commas(s@) =~= r@ + alternatives_as_commas(s@.skip(i + 1)));
            i = i + 1;
        }
    }
    assert(s@.skip(i as int) =~= Seq::<char>::empty());
    assert(r@ + Seq::<char>::empty() =~= r@);
    r
}

impl LevelRequirement {
    /// The levels of one skill's list of alternatives, such as "70/80+" or
    /// "64 or 70 Recommended", with for each whether it is only recommended
    /// and whether it is on the total level.
    pub fn parse_span_levels(level_str: &str) -> (r: Option<(Vec<u32>, Vec<bool>, Vec<bool>)>)
        ensures
            match r {
                Some((levels, recommended, total)) => span_levels(level_str@) matches Some(all) && levels@.len() == all.len()
                    && recommended@.len() == all.len() && total@.len() == all.len() && forall|i: int|
                    0 <= i < all.len() ==> #[trigger] all[i] == (levels@[i], recommended@[i], total@[i]),
                None => span_levels(level_str@) is None,
            },
    {
        let chars = chars_of(&string_of(level_str));
        let commas = alternatives_exec(&chars);
        let ps = split_pieces(&commas, true);
        let ghost all_pieces = piece_views(ps@);
        let ghost texts = level_texts(level_str@);
        let mut levels: Vec<u32> = Vec::new();
        let mut recommended: Vec<bool> = Vec::new();
        let mut total: Vec<bool> = Vec::new();
        let ghost mut kept: Seq<Seq<char>> = Seq::empty();
        let mut i: usize = 0;
        while i < ps.len()
            invariant
                texts == level_texts(level_str@),
                all_pieces == piece_views(ps@),
                all_pieces == pieces(alternatives_as_commas(level_str@), true),
                i <= ps@.len(),
                kept == non_blank(all_pieces.take(i as int)),
                levels@.len() == kept.len(),
                recommended@.len() == kept.len(),
                total@.len() == kept.len(),
                forall|k: int| 0 <= k < kept.len() ==> (#[trigger] level_of(kept[k])) == Some(
                    (levels@[k], recommended@[k], total@[k]),
                ),
            decreases ps@.len() - i,
        {
            assert(all_pieces.take(i + 1).drop_last() =~= all_pieces.take(i as int));
            assert(all_pieces[i as int] == ps@[i as int]@);
            let piece = &ps[i];
            let blank = piece.len() == 0 || (piece.len() == 1 && piece[0] == ' ');
            assert(blank == (ps@[i as int]@.len() == 0 || ps@[i as int]@ =~= seq![' ']));
            if !blank {
                let text = text_of(piece);
                match LevelRequirement::parse_level(text.as_str()) {
                    Some((n, rec, tot)) => {
                        levels.push(n);
                        recommended.push(rec);
                        total.push(tot);
                        proof {
                            kept = kept.push(all_pieces[i as int]);
                        }
                    },
                    None => {
                        proof {
                            let k = kept.len() as int;
                            let next = kept.push(all_pieces[i as int]);
                            assert(texts == non_blank(all_pieces));
                            assert(!blank_piece(all_pieces[i as int]));
                            assert(all_pieces.take(i + 1).last() == all_pieces[i as int]);
                            assert(non_blank(all_pieces.take(i + 1)) == next);
                            lemma_non_blank_prefix(all_pieces, i + 1);
                            assert(texts[k] == next[k]);
                            assert(level_of(texts[k]) is None);
                        }
                        return None;
                    },
                }
            }
            i = i + 1;
        }
        assert(all_pieces.take(i as int) =~= all_pieces);
        assert(kept == texts);
        Some((levels, recommended, total))
    }
}

/// The non-blank pieces of a prefix are a prefix of the non-blank pieces.
proof fn lemma_non_blank_prefix(ps: Seq<Seq<char>>, j: int)
    requires
        0 <= j <= ps.len(),
    ensures
        non_blank(ps.take(j)).len() <= non_blank(ps).len(),
        forall|k: int| 0 <= k < non_blank(ps.take(j)).len() ==> #[trigger] non_blank(ps.take(j))[k] == non_blank(ps)[k],
    decreases ps.len() - j,
{
    if j == ps.len() {
        assert(ps.take(j) =~= ps);
    } else {
        lemma_non_blank_prefix(ps, j + 1);
        let t = ps.take(j + 1);
        assert(t.drop_last() =~= ps.take(j));
        assert forall|k: int| 0 <= k < non_blank(ps.take(j)).len() implies #[trigger] non_blank(ps.take(j))[k] == non_blank(
            ps,
        )[k] by {
            assert(non_blank(t)[k] == non_blank(ps.take(j))[k]);
            assert(non_blank(t)[k] == non_blank(ps)[k]);
        }
    }
}

} // verus!

verus! {

/// What `str::to_lowercase` makes of a string.
pub uninterp spec fn lower_of(s: Seq<char>) -> Seq<char>;

/// Relies on `str::to_lowercase`, whose result depends on the characters
/// alone.
#[verifier::external_body]
fn lowercase(s: &str) -> (r: String)
    ensures
        r@ == lower_of(s@),
{
    s.to_lowercase()
}

/// Lowest level of the list, among the recommended ones only when
/// `only_recommended`.
pub open spec fn lowest_level(levels: Seq<u32>, recommended: Seq<bool>, only_recommended: bool) -> Option<u32>
    decreases levels.len(),
{
    if levels.len() == 0 {
        None
    } else {
        let n = levels.len() - 1;
        let rest = lowest_level(levels.drop_last(), recommended.take(n), only_recommended);
        if only_recommended && !recommended[n] {
            rest
        } else {
            match rest {
                Some(m) => Some(if levels[n] < m { levels[n] } else { m }),
                None => Some(levels[n]),
            }
        }
    }
}

/// The one level that stands for a requirement, and whether it is only
/// recommended: none gives level 0; a single level is itself; of several,
/// the lowest recommended one when recommendations are strict (level 0 when
/// there is none), else the lowest, taken as required.
pub open spec fn single_level(req: LevelRequirement, strict_recommended: bool) -> (u32, bool) {
    let levels = req.level_list@;
    let recommended = req.recommended_list@;
    if levels.len() == 0 {
        (0, false)
    } else if levels.len() == 1 {
        (levels[0], recommended[0])
    } else if strict_recommended {
        match lowest_level(levels, recommended, true) {
            Some(l) => (l, true),
            None => (0, false),
        }
    } else {
        (lowest_level(levels, recommended, false).unwrap(), false)
    }
}

/// The level of `name` among the player's levels: the first entry of that
/// name.
pub open spec fn level_lookup(levels: Seq<(String, u32)>, name: Seq<char>) -> Option<u32>
    decreases levels.len(),
{
    if levels.len() == 0 {
        None
    } else if levels[0].0@ == name {
        Some(levels[0].1)
    } else {
        level_lookup(levels.drop_first(), name)
    }
}

/// Whether the player meets each requirement in turn, stopping at the first
/// that is not met; `None` when a skill is reached that the player's levels
/// do not name.
pub open spec fn requirements_met(levels: Seq<(String, u32)>, reqs: Seq<LevelRequirement>, strict_recommended: bool) -> Option<bool>
    decreases reqs.len(),
{
    if reqs.len() == 0 {
        Some(true)
    } else {
        match level_lookup(levels, lower_of(reqs[0].name@)) {
            None => None,
            Some(l) => if l >= single_level(reqs[0], strict_recommended).0 {
                requirements_met(levels, reqs.drop_first(), strict_recommended)
            } else {
                Some(false)
            },
        }
    }
}

fn lowest_exec(levels: &Vec<u32>, recommended: &Vec<bool>, only_recommended: bool) -> (r: Option<u32>)
    requires
        recommended@.len() == levels@.len(),
    ensures
        r == lowest_level(levels@, recommended@, only_recommended),
{
    let mut best: Option<u32> = None;
    let mut i: usize = 0;
    while i < levels.len()
        invariant
            recommended@.len() == levels@.len(),
            i <= levels@.len(),
            best == lowest_level(levels@.take(i as int), recommended@.take(i as int), only_recommended),
        decreases levels@.len() - i,
    {
        assert(levels@.take(i + 1).drop_last() =~= levels@.take(i as int));
        assert(recommended@.take(i + 1).take(i as int) =~= recommended@.take(i as int));
        if !(only_recommended && !recommended[i]) {
            let l = levels[i];
            best = match best {
                Some(m) => Some(if l < m { l } else { m }),
                None => Some(l),
            };
        }
        i = i + 1;
    }
    assert(levels@.take(i as int) =~= levels@);
    assert(recommended@.take(i as int) =~= recommended@);
    best
}

fn level_of_name(levels: &Vec<(String, u32)>, name: &String) -> (r: Option<u32>)
    ensures
        r == level_lookup(levels@, name@),
{
    let mut i: usize = 0;
    assert(levels@.skip(0) =~= levels@);
    while i < levels.len()
        invariant
            i <= levels@.len(),
            level_lookup(levels@, name@) == level_lookup(levels@.skip(i as int), name@),
        decreases levels@.len() - i,
    {
        assert(levels@.skip(i as int).drop_first() =~= levels@.skip(i + 1));
        if levels[i].0 == *name {
            return Some(levels[i].1);
        }
        i = i + 1;
    }
    None
}

impl LevelRequirement {
    /// A requirement from the name of a skill and the text of its levels;
    /// "Skills" names the total level. `None` when the text cannot be read.
    pub fn from_span(name: String, level_list_str: Option<&str>) -> (r: Option<Self>)
        ensures
            match r {
                Some(req) => req.wf() && (if name@ == "Skills"@ {
                    req.name@ == "Total Level"@
                } else {
                    req.name == name
                }) && match level_list_str {
                    None => req.level_list@.len() == 0 && req.is_total_level_req_list@.len() == 0,
                    Some(s) => span_levels(s@) matches Some(all) && req.level_list@.len() == all.len() && forall|i: int|
                        0 <= i < all.len() ==> #[trigger] all[i] == (
                            req.level_list@[i],
                            req.recommended_list@[i],
                            req.is_total_level_req_list@[i],
                        ),
                },
                None => level_list_str matches Some(s) && span_levels(s@) is None,
            },
    {
        let name = if name == String::from_str("Skills") {
            String::from_str("Total Level")
        } else {
            name
        };
        match level_list_str {
            None => Some(LevelRequirement::new(name, Vec::new(), Vec::new(), Vec::new())),
            Some(s) => match LevelRequirement::parse_span_levels(s) {
                Some((levels, recommended, total)) => Some(LevelRequirement::new(name, levels, recommended, total)),
                None => None,
            },
        }
    }

    /// The skill's name in lower case, as the player's levels name it.
    pub fn get_name(&self) -> (r: String)
        ensures
            r@ == lower_of(self.name@),
    {
        lowercase(self.name.as_str())
    }

    pub fn get_single_level_and_recommended(&self, strict_recommended: bool) -> (r: (u32, bool))
        requires
            self.wf(),
        ensures
            r == single_level(*self, strict_recommended),
    {
        let n = self.level_list.len();
        if n == 0 {
            return (0, false);
        }
        if n == 1 {
            return (self.level_list[0], self.recommended_list[0]);
        }
        if strict_recommended {
            match lowest_exec(&self.level_list, &self.recommended_list, true) {
                Some(l) => (l, true),
                None => (0, false),
            }
        } else {
            let lowest = lowest_exec(&self.level_list, &self.recommended_list, false);
            proof {
                lemma_lowest_exists(self.level_list@, self.recommended_list@);
            }
            (lowest.unwrap(), false)
        }
    }

    pub fn get_level(&self, strict_recommended: bool) -> (r: u32)
        requires
            self.wf(),
        ensures
            r == single_level(*self, strict_recommended).0,
    {
        self.get_single_level_and_recommended(strict_recommended).0
    }

    pub fn get_recommended(&self, strict_recommended: bool) -> (r: bool)
        requires
            self.wf(),
        ensures
            r == single_level(*self, strict_recommended).1,
    {
        self.get_single_level_and_recommended(strict_recommended).1
    }
}

proof fn lemma_lowest_exists(levels: Seq<u32>, recommended: Seq<bool>)
    requires
        levels.len() > 0,
    ensures
        lowest_level(levels, recommended, false) is Some,
    decreases levels.len(),
{
    if levels.len() > 1 {
        lemma_lowest_exists(levels.drop_last(), recommended.take(levels.len() - 1));
    }
}

/// Whether the player's levels meet every requirement; see
/// `requirements_met`.
pub fn config_has_required_levels(config_levels: &Levels, level_reqs: &Vec<LevelRequirement>, strict_recommended: bool) -> (r: Option<bool>)
    requires
        forall|i: int| 0 <= i < level_reqs@.len() ==> (#[trigger] level_reqs@[i]).wf(),
    ensures
        r == requirements_met(config_levels.levels@, level_reqs@, strict_recommended),
{
    let mut i: usize = 0;
    assert(level_reqs@.skip(0) =~= level_reqs@);
    while i < level_reqs.len()
        invariant
            forall|k: int| 0 <= k < level_reqs@.len() ==> (#[trigger] level_reqs@[k]).wf(),
            i <= level_reqs@.len(),
            requirements_met(config_levels.levels@, level_reqs@, strict_recommended) == requirements_met(
                config_levels.levels@,
                level_reqs@.skip(i as int),
                strict_recommended,
            ),
        decreases level_reqs@.len() - i,
    {
        assert(level_reqs@.skip(i as int).drop_first() =~= level_reqs@.skip(i + 1));
        assert(level_reqs@.skip(i as int)[0] == level_reqs@[i as int]);
        let req = &level_reqs[i];
        let name = req.get_name();
        let level = req.get_level(strict_recommended);
        match level_of_name(&config_levels.levels, &name) {
            None => return None,
            Some(l) => if l < level {
                return Some(false);
            },
        }
        i = i + 1;
    }
    Some(true)
}

} // verus!
