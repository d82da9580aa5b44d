use vstd::prelude::*;
use crate::shape::Rect;

verus! {

/// A construction-time data error of the font subsystem.
#[derive(Clone, Copy, Debug, PartialEq, Eq, Structural)]
pub enum FontError {
    /// The caller-supplied alphabet names the same character twice.
    DuplicateAlphabetCharacter,
}

/// Whether the character sequence holds some character twice.
pub open spec fn has_duplicate_spec(s: Seq<char>) -> bool {
    exists|i: int, j: int| 0 <= i < j < s.len() && s[i] == s[j]
}

/// The glyph bands of the flat pixel strip `p`, read from index `i` on,
/// with `pending` the start of the band currently open, if one is. A band
/// is a maximal run of pixels that differ from the border color; the pair
/// holds the index of its first pixel and the index of the border pixel
/// that closes it. A band still open when the strip ends is dropped.
pub open spec fn bands_from(p: Seq<u8>, border: u8, i: int, pending: Option<int>) -> Seq<(int, int)>
    decreases p.len() - i,
{
    if i < 0 || i >= p.len() {
        Seq::empty()
    } else if p[i] == border {
        match pending {
            Some(s) => seq![(s, i)] + bands_from(p, border, i + 1, None),
            None => bands_from(p, border, i + 1, None),
        }
    } else {
        match pending {
            Some(s) => bands_from(p, border, i + 1, Some(s)),
            None => bands_from(p, border, i + 1, Some(i)),
        }
    }
}

/// The glyph bands of the whole strip; its first pixel fixes the border
/// color, so a scan always starts on a border pixel with no band open.
pub open spec fn bands(p: Seq<u8>) -> Seq<(int, int)> {
    if p.len() == 0 {
        Seq::empty()
    } else {
        bands_from(p, p[0], 0, None)
    }
}

/// The glyph rectangle of one band: it starts at the band's first pixel,
/// spans the full image height, and is as wide as the band.
pub open spec fn band_rect(b: (int, int), height: u32) -> Rect {
    Rect { x: b.0 as i32, y: 0, width: (b.1 - b.0) as u32, height }
}

/// How many glyphs `extract` maps: one per band, but never more than the
/// alphabet has characters.
pub open spec fn glyph_count(p: Seq<u8>, alphabet: Seq<char>) -> nat {
    if alphabet.len() <= bands(p).len() {
        alphabet.len()
    } else {
        bands(p).len()
    }
}

/// The entries `extract` returns on an image that is not degenerate: the
/// k-th band, bound to the k-th alphabet character.
pub open spec fn extract_entries(p: Seq<u8>, height: u32, alphabet: Seq<char>) -> Seq<(char, Rect)> {
    Seq::new(glyph_count(p, alphabet), |k: int| (alphabet[k], band_rect(bands(p)[k], height)))
}

/// The mapping `extract` returns for every input it accepts: empty for a
/// degenerate image, the bands bound to the alphabet otherwise.
pub open spec fn extract_spec(p: Seq<u8>, width: u32, height: u32, alphabet: Seq<char>) -> Seq<
    (char, Rect),
> {
    if width == 0 || height == 0 {
        Seq::empty()
    } else {
        extract_entries(p, height, alphabet)
    }
}

/// The open-band state of the scan loop, as the spec sees it.
pub open spec fn opt_view(o: Option<usize>) -> Option<int> {
    match o {
        Some(s) => Some(s as int),
        None => None,
    }
}

/// Whether the character vector holds some character twice.
pub fn has_duplicate(chars: &Vec<char>) -> (r: bool)
    ensures
        r == has_duplicate_spec(chars@),
{
    let n = chars.len();
    let mut i: usize = 0;
    while i < n
        invariant
            n == chars@.len(),
            i <= n,
            forall|a: int, b: int| 0 <= a < b < n && a < i ==> chars@[a] != chars@[b],
        decreases n - i,
    {
        let mut j: usize = i + 1;
        while j < n
            invariant
                n == chars@.len(),
                i < j <= n,
                i < n,
                forall|b: int| i < b < j ==> chars@[i as int] != chars@[b],
            decreases n - j,
        {
            if chars[i] == chars[j] {
                proof {
                    assert(0 <= i < j < chars@.len() && chars@[i as int] == chars@[j as int]);
                }
                return true;
            }
            j = j + 1;
        }
        i = i + 1;
    }
    false
}

/// Scan a decoded image for glyph rectangles and bind them to the alphabet.
///
/// The buffer's first pixel fixes the border color. One pass over the flat
/// buffer collects each run of non-border pixels that a border pixel
/// closes, left to right, and binds the k-th run to the k-th alphabet
/// character. Scanning stops as soon as every alphabet character has a
/// glyph; a trailing run that no border pixel closes is dropped; an image
/// with zero width or height yields an empty mapping. A duplicate character
/// in the alphabet is the one error, whatever the image holds.
pub fn extract(pixels: &Vec<u8>, width: u32, height: u32, alphabet: &Vec<char>) -> (r: Result<
    Vec<(char, Rect)>,
    FontError,
>)
    requires
        pixels@.len() <= 0x7fff_ffff,
    ensures
        match r {
            Ok(entries) => !has_duplicate_spec(alphabet@) && entries@ == extract_spec(
                pixels@,
                width,
                height,
                alphabet@,
            ),
            Err(e) => has_duplicate_spec(alphabet@) && e == FontError::DuplicateAlphabetCharacter,
        },
{
    if has_duplicate(alphabet) {
        return Err(FontError::DuplicateAlphabetCharacter);
    }
    let mut entries: Vec<(char, Rect)> = Vec::new();
    if width == 0 || height == 0 {
        return Ok(entries);
    }
    if pixels.len() == 0 {
        proof {
            assert(entries@ =~= extract_entries(pixels@, height, alphabet@));
        }
        return Ok(entries);
    }
    let border: u8 = pixels[0];
    let mut i: usize = 0;
    let mut pending: Option<usize> = None;
    let mut truncated: bool = false;
    while i < pixels.len()
        invariant_except_break
            1 <= pixels@.len() <= 0x7fff_ffff,
            border == pixels@[0],
            i <= pixels@.len(),
            !truncated,
            entries@.len() <= alphabet@.len(),
            entries@.len() <= bands(pixels@).len(),
            bands_from(pixels@, border, i as int, opt_view(pending)) == bands(pixels@).skip(
                entries@.len() as int,
            ),
            pending matches Some(s) ==> s < i,
            forall|k: int|
                0 <= k < entries@.len() ==> entries@[k] == (
                    alphabet@[k],
                    band_rect(bands(pixels@)[k], height),
                ),
        ensures
            entries@.len() <= alphabet@.len(),
            entries@.len() <= bands(pixels@).len(),
            truncated ==> entries@.len() == alphabet@.len() && bands(pixels@).len()
                > alphabet@.len(),
            !truncated ==> i == pixels@.len() && bands_from(
                pixels@,
                border,
                i as int,
                opt_view(pending),
            ) == bands(pixels@).skip(entries@.len() as int),
            forall|k: int|
                0 <= k < entries@.len() ==> entries@[k] == (
                    alphabet@[k],
                    band_rect(bands(pixels@)[k], height),
                ),
        decreases pixels@.len() - i,
    {
        let px = pixels[i];
        if px == border {
            match pending {
                Some(s) => {
                    proof {
                        let full = bands(pixels@);
                        let n = entries@.len() as int;
                        let rest = bands_from(pixels@, border, i as int + 1, None);
                        assert(full.skip(n) == seq![(s as int, i as int)] + rest);
                        assert(full.skip(n).len() == full.len() - n);
                        assert(full.len() >= n + 1);
                    }
                    if entries.len() == alphabet.len() {
                        truncated = true;
                        break;
                    }
                    let ch = alphabet[entries.len()];
                    let rect = Rect { x: s as i32, y: 0, width: (i - s) as u32, height: height };
                    proof {
                        let full = bands(pixels@);
                        let n = entries@.len() as int;
                        let rest = bands_from(pixels@, border, i as int + 1, None);
                        assert((seq![(s as int, i as int)] + rest)[0] == (s as int, i as int));
                        assert(full.skip(n)[0] == full[n]);
                        assert(full[n] == (s as int, i as int));
                        assert(rect == band_rect(full[n], height));
                        assert forall|k: int| 0 <= k < rest.len() implies rest[k] == full[n + 1
                            + k] by {
                            assert((seq![(s as int, i as int)] + rest)[k + 1] == rest[k]);
                            assert(full.skip(n)[k + 1] == full[n + k + 1]);
                        }
                        assert(full.skip(n + 1) =~= rest);
                    }
                    entries.push((ch, rect));
                    pending = None;
                },
                None => {},
            }
        } else {
            if pending.is_none() {
                pending = Some(i);
            }
        }
        i = i + 1;
    }
    proof {
        if !truncated {
            assert(bands_from(pixels@, border, i as int, opt_view(pending)) =~= Seq::<
                (int, int),
            >::empty());
            assert(bands(pixels@).skip(entries@.len() as int).len() == 0);
            assert(bands(pixels@).len() == entries@.len());
        }
        assert(entries@.len() == glyph_count(pixels@, alphabet@));
        assert(entries@ =~= extract_entries(pixels@, height, alphabet@));
    }
    Ok(entries)
}

/// Alphabet-order binding: when the alphabet has at least as many distinct
/// characters as the image has bands, every band is mapped, and the k-th
/// band is bound to the k-th character of the alphabet.
pub proof fn lemma_alphabet_order_binding(p: Seq<u8>, width: u32, height: u32, alphabet: Seq<char>)
    requires
        width != 0,
        height != 0,
        bands(p).len() <= alphabet.len(),
    ensures
        extract_spec(p, width, height, alphabet).len() == bands(p).len(),
        forall|k: int|
            0 <= k < bands(p).len() ==> extract_spec(p, width, height, alphabet)[k] == (
                alphabet[k],
                band_rect(bands(p)[k], height),
            ),
{
}

/// Truncation on alphabet exhaustion: when the image has more bands than
/// the alphabet has characters, exactly one glyph per character is mapped,
/// bound in order to the first bands; the bands past the alphabet produce
/// nothing.
pub proof fn lemma_truncation_on_exhaustion(p: Seq<u8>, width: u32, height: u32, alphabet: Seq<
    char,
>)
    requires
        width != 0,
        height != 0,
        bands(p).len() > alphabet.len(),
    ensures
        extract_spec(p, width, height, alphabet).len() == alphabet.len(),
        forall|k: int|
            0 <= k < alphabet.len() ==> extract_spec(p, width, height, alphabet)[k] == (
                alphabet[k],
                band_rect(bands(p)[k], height),
            ),
{
}

/// An empty alphabet, or an image of zero width or height, always yields
/// the empty mapping, whatever the pixels hold.
pub proof fn lemma_empty_alphabet_or_degenerate(p: Seq<u8>, width: u32, height: u32, alphabet: Seq<
    char,
>)
    requires
        alphabet.len() == 0 || width == 0 || height == 0,
    ensures
        extract_spec(p, width, height, alphabet).len() == 0,
{
}

/// Every band of `bs` lies between index 0 and `lim` and is at least one
/// pixel wide.
pub open spec fn bands_within(bs: Seq<(int, int)>, lim: int) -> bool {
    forall|k: int|
        0 <= k < bs.len() ==> 0 <= (#[trigger] bs[k]).0 && bs[k].0 < bs[k].1 && bs[k].1 < lim
}

/// Every band of the suffix scan lies inside the strip and is at least one
/// pixel wide.
proof fn lemma_bands_from_wf(p: Seq<u8>, border: u8, i: int, pending: Option<int>)
    requires
        0 <= i <= p.len(),
        pending matches Some(s) ==> 0 <= s < i,
    ensures
        bands_within(bands_from(p, border, i, pending), p.len() as int),
    decreases p.len() - i,
{
    if i >= p.len() {
    } else if p[i] == border {
        match pending {
            Some(s) => {
                lemma_bands_from_wf(p, border, i + 1, None);
                let rest = bands_from(p, border, i + 1, None);
                let whole = bands_from(p, border, i, pending);
                assert(whole == seq![(s, i)] + rest);
                assert forall|k: int| 0 <= k < whole.len() implies 0 <= (#[trigger] whole[k]).0
                    && whole[k].0 < whole[k].1 && whole[k].1 < p.len() by {
                    if k == 0 {
                        assert(whole[0] == (s, i));
                    } else {
                        assert(whole[k] == rest[k - 1]);
                    }
                }
            },
            None => {
                lemma_bands_from_wf(p, border, i + 1, None);
            },
        }
    } else {
        match pending {
            Some(s) => {
                lemma_bands_from_wf(p, border, i + 1, Some(s));
            },
            None => {
                lemma_bands_from_wf(p, border, i + 1, Some(i));
            },
        }
    }
}

/// Every band of the strip lies inside it and is at least one pixel wide:
/// glyph rectangles sit at a non-negative x and have positive width.
pub proof fn lemma_bands_wf(p: Seq<u8>)
    ensures
        bands_within(bands(p), p.len() as int),
{
    if p.len() > 0 {
        lemma_bands_from_wf(p, p[0], 0, None);
    }
}

} // verus!
