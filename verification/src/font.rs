use vstd::prelude::*;
use crate::shape::Rect;
use crate::scanner;
use crate::scanner::FontError;

verus! {

/// What a font table holds, as the spec sees it: the character-to-glyph
/// entries in the order the scanner bound them, and the fixed line height.
pub ghost struct FontView {
    pub glyphs: Seq<(char, Rect)>,
    pub height: u32,
}

/// The glyph rectangle bound to `ch` among `glyphs`, if any: the first
/// entry with that key (there is at most one, since the alphabet holds no
/// duplicate characters).
pub open spec fn lookup(glyphs: Seq<(char, Rect)>, ch: char) -> Option<Rect>
    decreases glyphs.len(),
{
    if glyphs.len() == 0 {
        None
    } else if glyphs[0].0 == ch {
        Some(glyphs[0].1)
    } else {
        lookup(glyphs.drop_first(), ch)
    }
}

/// In a table without repeated keys, looking up the key of the k-th entry
/// finds exactly that entry's rectangle: with a duplicate-free alphabet,
/// the character the scanner bound to the k-th band looks up the k-th
/// band's rectangle.
pub proof fn lemma_lookup_entry(glyphs: Seq<(char, Rect)>, k: int)
    requires
        0 <= k < glyphs.len(),
        forall|a: int, b: int|
            0 <= a < b < glyphs.len() ==> (#[trigger] glyphs[a]).0 != (#[trigger] glyphs[b]).0,
    ensures
        lookup(glyphs, glyphs[k].0) == Some(glyphs[k].1),
    decreases glyphs.len(),
{
    if k == 0 {
    } else {
        assert(glyphs[0].0 != glyphs[k].0);
        let rest = glyphs.drop_first();
        assert forall|a: int, b: int| 0 <= a < b < rest.len() implies (#[trigger] rest[a]).0 != (
        #[trigger] rest[b]).0 by {
            assert(rest[a] == glyphs[a + 1]);
            assert(rest[b] == glyphs[b + 1]);
        }
        assert(rest[k - 1] == glyphs[k]);
        lemma_lookup_entry(rest, k - 1);
    }
}

/// A character-to-glyph table produced by scanning a specially laid-out
/// image. Immutable after construction: every glyph spans the table's
/// fixed height, sits at a non-negative x, and is at least one pixel wide;
/// no character appears twice.
pub struct Font {
    glyphs: Vec<(char, Rect)>,
    height: u32,
}

impl View for Font {
    type V = FontView;

    closed spec fn view(&self) -> FontView {
        FontView { glyphs: self.glyphs@, height: self.height }
    }
}

impl Font {
    /// The construction invariant: distinct characters, and well-formed
    /// glyph rectangles of the table's own height.
    pub open spec fn wf(&self) -> bool {
        &&& forall|a: int, b: int|
            0 <= a < b < self@.glyphs.len() ==> (#[trigger] self@.glyphs[a]).0 != (
            #[trigger] self@.glyphs[b]).0
        &&& forall|k: int|
            0 <= k < self@.glyphs.len() ==> {
                &&& (#[trigger] self@.glyphs[k]).1.height == self@.height
                &&& self@.glyphs[k].1.width > 0
                &&& self@.glyphs[k].1.x >= 0
                &&& self@.glyphs[k].1.y == 0
            }
    }

    /// Build a font table from a decoded image: scan the flat pixel buffer
    /// for glyph bands and bind them to the alphabet, in order. Fails only
    /// when the alphabet holds a duplicate character.
    pub fn from_image(pixels: &Vec<u8>, width: u32, height: u32, alphabet: &Vec<char>) -> (r:
        Result<Font, FontError>)
        requires
            pixels@.len() <= 0x7fff_ffff,
        ensures
            match r {
                Ok(f) => {
                    &&& !scanner::has_duplicate_spec(alphabet@)
                    &&& f@.glyphs == scanner::extract_spec(pixels@, width, height, alphabet@)
                    &&& f@.height == height
                    &&& f.wf()
                },
                Err(e) => scanner::has_duplicate_spec(alphabet@) && e
                    == FontError::DuplicateAlphabetCharacter,
            },
    {
        let glyphs = match scanner::extract(pixels, width, height, alphabet) {
            Ok(entries) => entries,
            Err(e) => { return Err(e); },
        };
        let f = Font { glyphs, height };
        proof {
            scanner::lemma_bands_wf(pixels@);
            assert forall|k: int| 0 <= k < f@.glyphs.len() implies {
                &&& (#[trigger] f@.glyphs[k]).1.height == f@.height
                &&& f@.glyphs[k].1.width > 0
                &&& f@.glyphs[k].1.x >= 0
                &&& f@.glyphs[k].1.y == 0
            } by {
                assert(0 <= (scanner::bands(pixels@)[k]).0 < (scanner::bands(pixels@)[k]).1
                    < pixels@.len());
            }
        }
        Ok(f)
    }

    /// Whether this font can draw `ch`.
    pub fn is_printable(&self, ch: char) -> (r: bool)
        ensures
            r == (lookup(self@.glyphs, ch) is Some),
    {
        self.get_rect(ch).is_some()
    }

    /// The number of printable characters the font holds.
    pub fn len(&self) -> (r: usize)
        ensures
            r == self@.glyphs.len(),
    {
        self.glyphs.len()
    }

    /// Whether the font holds no printable character at all.
    pub fn is_empty(&self) -> (r: bool)
        ensures
            r == (self@.glyphs.len() == 0),
    {
        self.glyphs.len() == 0
    }

    /// The height of the font: the same for every character, while the
    /// individual widths vary. No glyph exceeds it.
    pub fn get_height(&self) -> (r: u32)
        ensures
            r == self@.height,
    {
        self.height
    }

    /// The portion of the font's backing image used to draw `ch`, or `None`
    /// when this font cannot draw it. A read-only lookup: the same table
    /// returns the same rectangle on every call.
    pub fn get_rect(&self, ch: char) -> (r: Option<Rect>)
        ensures
            r == lookup(self@.glyphs, ch),
    {
        let n = self.glyphs.len();
        let mut i: usize = 0;
        proof {
            assert(self@.glyphs.skip(0) =~= self@.glyphs);
        }
        while i < n
            invariant
                n == self@.glyphs.len(),
                i <= n,
                lookup(self@.glyphs, ch) == lookup(self@.glyphs.skip(i as int), ch),
            decreases n - i,
        {
            proof {
                assert(self@.glyphs.skip(i as int)[0] == self@.glyphs[i as int]);
            }
            if self.glyphs[i].0 == ch {
                return Some(self.glyphs[i].1);
            }
            proof {
                assert(self@.glyphs.skip(i as int).drop_first() =~= self@.glyphs.skip(i as int + 1));
            }
            i = i + 1;
        }
        proof {
            assert(self@.glyphs.skip(n as int).len() == 0);
        }
        None
    }
}

} // verus!
