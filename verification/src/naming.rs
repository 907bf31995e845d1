//! File names of saved matrices and screenshots.
use vstd::prelude::*;

verus! {

/// `s` ends with `suffix`.
pub open spec fn ends_with(s: Seq<char>, suffix: Seq<char>) -> bool {
    suffix.len() <= s.len() && s.subrange(s.len() - suffix.len(), s.len() as int) == suffix
}

/// `s` with `ext` appended unless it already ends with `ext`.
pub open spec fn with_extension(s: Seq<char>, ext: Seq<char>) -> Seq<char> {
    if ends_with(s, ext) {
        s
    } else {
        s + ext
    }
}

/// Whether `s` ends with `suffix`.
pub fn str_ends_with(s: &str, suffix: &str) -> (b: bool)
    ensures
        b == ends_with(s@, suffix@),
        b <==> (suffix@.len() <= s@.len() && forall|j: int|
            0 <= j < suffix@.len() ==> s@[s@.len() - suffix@.len() + j] == #[trigger] suffix@[j]),
{
    let n = s.unicode_len();
    let m = suffix.unicode_len();
    if m > n {
        return false;
    }
    let mut i: usize = 0;
    while i < m
        invariant
            n == s@.len(),
            m == suffix@.len(),
            m <= n,
            i <= m,
            forall|j: int| 0 <= j < i ==> s@[n - m + j] == suffix@[j],
        decreases m - i,
    {
        if s.get_char(n - m + i) != suffix.get_char(i) {
            assert(s@.subrange(n - m, n as int)[i as int] != suffix@[i as int]);
            return false;
        }
        i = i + 1;
    }
    assert(s@.subrange(n - m, n as int) =~= suffix@);
    true
}

/// `path` with the `.ro` extension of saved matrices, added unless present.
pub fn with_ro_extension(path: &str) -> (r: String)
    ensures
        r@ == with_extension(path@, ".ro"@),
        exists|p: Seq<char>| r@ == p + ".ro"@,
        r@ == path@ || r@ == path@ + ".ro"@,
{
    proof {
        extension_ends_name(path@, ".ro"@);
    }
    let mut r = String::from_str(path);
    if !str_ends_with(path, ".ro") {
        r.append(".ro");
    }
    r
}

/// Where the matrices of the separable approach named `path` are saved.
pub fn separable_save_path(path: &str) -> (r: String)
    ensures
        r@ == "./saves/matrix_capture/sep/"@ + with_extension(path@, ".ro"@),
{
    let mut r = String::from_str("./saves/matrix_capture/sep/");
    let name = with_ro_extension(path);
    r.append(name.as_str());
    r
}

/// Where the matrices of the stereo approach named `path` are saved.
pub fn stereo_save_path(path: &str) -> (r: String)
    ensures
        r@ == "./saves/matrix_capture/stereo/"@ + with_extension(path@, ".ro"@),
{
    let mut r = String::from_str("./saves/matrix_capture/stereo/");
    let name = with_ro_extension(path);
    r.append(name.as_str());
    r
}

/// The directory of the saved scene named `name`.
pub fn scene_capture_dir(name: &str) -> (r: String)
    ensures
        r@ == "./saves/scene_capture/"@ + name@ + "/"@,
{
    let mut r = String::from_str("./saves/scene_capture/");
    r.append(name);
    r.append("/");
    r
}

/// Gives a screenshot name the `.png` extension unless it has it.
pub fn ensure_png_extension(name: &mut String)
    ensures
        final(name)@ == with_extension(old(name)@, ".png"@),
        exists|p: Seq<char>| final(name)@ == p + ".png"@,
        final(name)@ == old(name)@ || final(name)@ == old(name)@ + ".png"@,
{
    proof {
        extension_ends_name(name@, ".png"@);
    }
    if !str_ends_with(name.as_str(), ".png") {
        name.append(".png");
    }
}

/// Law: `s` ends with `suffix` exactly when `s` is some prefix followed by
/// the whole of `suffix`; every character of `suffix`, the first included,
/// counts.
pub proof fn ends_with_is_suffix(s: Seq<char>, suffix: Seq<char>)
    ensures
        ends_with(s, suffix) <==> exists|p: Seq<char>| s == p + suffix,
        ends_with(s, suffix) ==> s == s.take(s.len() - suffix.len()) + suffix,
        ends_with(s + suffix, suffix),
{
    if ends_with(s, suffix) {
        assert(s =~= s.take(s.len() - suffix.len()) + suffix);
    }
    if exists|p: Seq<char>| s == p + suffix {
        let p = choose|p: Seq<char>| s == p + suffix;
        assert(s.subrange(s.len() - suffix.len(), s.len() as int) =~= suffix);
    }
    assert((s + suffix).subrange((s + suffix).len() - suffix.len(), (s + suffix).len() as int) =~= suffix);
}

/// Law: a name given an extension ends with it: the result is the name
/// itself when the name already ends with the extension, and otherwise
/// the name followed by the extension; in both cases the result is some
/// prefix followed by the whole extension.
pub proof fn extension_ends_name(s: Seq<char>, ext: Seq<char>)
    ensures
        exists|p: Seq<char>| with_extension(s, ext) == p + ext,
        with_extension(s, ext) == s || with_extension(s, ext) == s + ext,
        (exists|p: Seq<char>| s == p + ext) ==> with_extension(s, ext) == s,
        !(exists|p: Seq<char>| s == p + ext) ==> with_extension(s, ext) == s + ext,
{
    ends_with_is_suffix(s, ext);
    if ends_with(s, ext) {
        assert(s == s.take(s.len() - ext.len()) + ext);
    } else {
        assert(with_extension(s, ext) == s + ext);
    }
}

/// Law: adding an extension twice is adding it once.
pub proof fn extension_is_idempotent(s: Seq<char>, ext: Seq<char>)
    ensures
        with_extension(with_extension(s, ext), ext) == with_extension(s, ext),
        ends_with(with_extension(s, ext), ext),
{
    if !ends_with(s, ext) {
        let t = s + ext;
        assert(t.subrange(t.len() - ext.len(), t.len() as int) =~= ext);
    }
}

/// The prompt that asks for the file name of a screenshot.
pub struct ScreenshotPrompt {
    /// A screenshot was requested; the prompt is open.
    pub retrieve_image: bool,
    pub first_draw: bool,
    /// The name has been entered and the screenshot can be written.
    pub name_inserted: bool,
    pub save_name: String,
}

impl ScreenshotPrompt {
    pub fn new() -> (p: ScreenshotPrompt)
        ensures
            !p.retrieve_image,
            !p.first_draw,
            !p.name_inserted,
            p.save_name@ == Seq::<char>::empty(),
    {
        ScreenshotPrompt { retrieve_image: false, first_draw: false, name_inserted: false, save_name: String::new() }
    }

    /// Start of drawing the prompt: when no screenshot is requested, marks
    /// the next opening as a first draw, clears the entered flag and returns
    /// `false`; otherwise returns `true` and changes nothing.
    pub fn draw_ui_begin(&mut self) -> (show: bool)
        ensures
            show == old(self).retrieve_image,
            final(self).retrieve_image == old(self).retrieve_image,
            final(self).save_name == old(self).save_name,
            !show ==> final(self).first_draw && !final(self).name_inserted,
            show ==> final(self).first_draw == old(self).first_draw && final(self).name_inserted == old(
                self,
            ).name_inserted,
    {
        if !self.retrieve_image {
            self.first_draw = true;
            self.name_inserted = false;
            return false;
        }
        true
    }

    /// End of drawing the open prompt, given which buttons were clicked:
    /// "Save" gives the name the `.png` extension and marks it entered,
    /// "Cancel" drops the request, forgets the name and clears the entered
    /// flag; the prompt is no longer at its first draw.
    pub fn draw_ui_end(&mut self, save_clicked: bool, cancel_clicked: bool)
        ensures
            !final(self).first_draw,
            final(self).retrieve_image == (old(self).retrieve_image && !cancel_clicked),
            final(self).name_inserted == if cancel_clicked {
                false
            } else if save_clicked {
                true
            } else {
                old(self).name_inserted
            },
            final(self).save_name@ == if cancel_clicked {
                Seq::<char>::empty()
            } else if save_clicked {
                with_extension(old(self).save_name@, ".png"@)
            } else {
                old(self).save_name@
            },
    {
        if save_clicked {
            ensure_png_extension(&mut self.save_name);
            self.first_draw = false;
            self.name_inserted = true;
        }
        if cancel_clicked {
            self.retrieve_image = false;
            self.name_inserted = false;
            self.save_name = String::new();
        }
        self.first_draw = false;
    }
}

} // verus!
