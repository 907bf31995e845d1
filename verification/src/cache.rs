//! The images currently shown on the panels and the outputs they come from.
use vstd::prelude::*;

verus! {

/// The two panel images of a factorization and, if recorded, its error
/// curve.
pub type OutCache<I, E> = Option<(I, I, Option<E>)>;

/// The target image, the panel images on display, and the last outputs of
/// the stereo and the separable factorization.
pub struct ImageCache<I, E> {
    pub target_image: I,
    pub panels: Vec<I>,
    pub stereo_out: Option<(I, I, Option<E>)>,
    pub separable_out: Option<(I, I, Option<E>)>,
}

/// The output of the stereo (`true`) or separable (`false`) factorization.
pub open spec fn chosen_output<I, E>(c: ImageCache<I, E>, stereo: bool) -> Option<(I, I, Option<E>)> {
    if stereo {
        c.stereo_out
    } else {
        c.separable_out
    }
}

impl<I: Clone, E> ImageCache<I, E> {
    /// A cache showing `panels`, with no output recorded.
    pub fn new(target_image: I, panels: Vec<I>) -> (c: ImageCache<I, E>)
        ensures
            c.target_image == target_image,
            c.panels@ == panels@,
            c.stereo_out is None,
            c.separable_out is None,
    {
        ImageCache { target_image, panels, stereo_out: None, separable_out: None }
    }

    /// Shows the two images of the chosen output on the panels; `Err` when
    /// that output has not been recorded, the panels then stay as they are.
    pub fn load_output(&mut self, stereo: bool) -> (r: Result<(), ()>)
        ensures
            final(self).target_image == old(self).target_image,
            final(self).stereo_out == old(self).stereo_out,
            final(self).separable_out == old(self).separable_out,
            r is Ok <==> chosen_output(*old(self), stereo) is Some,
            chosen_output(*old(self), stereo) is None ==> final(self).panels@ == old(self).panels@,
            chosen_output(*old(self), stereo) matches Some(out) ==> {
                &&& final(self).panels@.len() == 2
                &&& cloned(out.0, final(self).panels@[0])
                &&& cloned(out.1, final(self).panels@[1])
            },
    {
        let out = if stereo { &self.stereo_out } else { &self.separable_out };
        match out {
            Some((image_1, image_2, _)) => {
                let a = image_1.clone();
                let b = image_2.clone();
                let mut images: Vec<I> = Vec::new();
                images.push(a);
                images.push(b);
                self.panels = images;
                Ok(())
            },
            None => Err(()),
        }
    }

    /// Records the output of the stereo (`true`) or separable (`false`)
    /// factorization and shows it on the panels when there is one.
    pub fn cache_output(&mut self, stereo: bool, out: Option<(I, I, Option<E>)>)
        ensures
            final(self).target_image == old(self).target_image,
            stereo ==> final(self).stereo_out == out && final(self).separable_out == old(self).separable_out,
            !stereo ==> final(self).separable_out == out && final(self).stereo_out == old(self).stereo_out,
            out is None ==> final(self).panels@ == old(self).panels@,
            out matches Some(o) ==> {
                &&& final(self).panels@.len() == 2
                &&& cloned(o.0, final(self).panels@[0])
                &&& cloned(o.1, final(self).panels@[1])
            },
    {
        if stereo {
            self.stereo_out = out;
        } else {
            self.separable_out = out;
        }
        let _ = self.load_output(stereo);
    }

    /// The error curve recorded with the stereo (`true`) or separable
    /// (`false`) output, if that output and its curve were recorded.
    pub fn recorded_error(&self, stereo: bool) -> (e: Option<&E>)
        ensures
            e is Some <==> (chosen_output(*self, stereo) matches Some(o) && o.2 is Some),
            e matches Some(x) ==> (chosen_output(*self, stereo) matches Some(o) && o.2 == Some(*x)),
    {
        let out = if stereo { &self.stereo_out } else { &self.separable_out };
        match out {
            Some((_, _, Some(error))) => Some(error),
            _ => None,
        }
    }

    /// Replaces the image shown on panel `entry`.
    pub fn cache_panel(&mut self, entry: usize, image: I)
        requires
            entry < old(self).panels@.len(),
        ensures
            final(self).panels@ == old(self).panels@.update(entry as int, image),
            final(self).target_image == old(self).target_image,
            final(self).stereo_out == old(self).stereo_out,
            final(self).separable_out == old(self).separable_out,
    {
        self.panels.set(entry, image);
    }

    /// Replaces the target image.
    pub fn load_world(&mut self, img: I)
        ensures
            final(self).target_image == img,
            final(self).panels@ == old(self).panels@,
            final(self).stereo_out == old(self).stereo_out,
            final(self).separable_out == old(self).separable_out,
    {
        self.target_image = img;
    }
}

} // verus!
