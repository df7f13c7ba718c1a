//! Bookkeeping of a page recorder: the layers recorded so far, whether
//! drawing has happened since the last layer was closed, and the rendered
//! image kept for the current layers.
//!
//! The recorder draws into a recording canvas; when the page is taken and
//! something was drawn, the recording is closed into a new layer and a new
//! recording begins. A rendered image is kept until the layers change.

use vstd::prelude::*;

verus! {

/// A page taken from a recorder: its layers, bottom first, and its bounds.
#[derive(Clone, Debug)]
pub struct Page<L, B> {
    pub layers: Vec<L>,
    pub bounds: B,
}

/// The layers of a page, `L` being a recorded picture and `I` a rendered
/// image of all layers.
pub struct PageLog<L, I> {
    layers: Vec<L>,
    cache: Option<I>,
    changed: bool,
    rendered_from: Ghost<Seq<L>>,
}

/// The layers after closing a recording: the closed recording, if it gave a
/// picture, goes on top.
pub open spec fn with_layer<L>(layers: Seq<L>, finished: Option<L>) -> Seq<L> {
    match finished {
        Some(p) => layers.push(p),
        None => layers,
    }
}

/// Layers and the drawing flag after the page is taken: a recording that
/// holds drawing is closed into a layer, and the flag is cleared.
pub open spec fn page_taken<L>(layers: Seq<L>, changed: bool, finished: Option<L>) -> (Seq<L>, bool) {
    if changed {
        (with_layer(layers, finished), false)
    } else {
        (layers, false)
    }
}

impl<L, I> PageLog<L, I> {
    /// A kept image was rendered from exactly the current layers.
    #[verifier::type_invariant]
    spec fn image_is_current(self) -> bool {
        self.cache is Some ==> self.rendered_from@ == self.layers@
    }

    /// The layers that the kept image was rendered from.
    pub closed spec fn image_layers(&self) -> Seq<L> {
        self.rendered_from@
    }

    /// The layers recorded so far, bottom first.
    pub closed spec fn layers(&self) -> Seq<L> {
        self.layers@
    }

    /// The image rendered from the current layers, if one is kept.
    pub closed spec fn cache(&self) -> Option<I> {
        self.cache
    }

    /// Whether drawing has gone into the open recording since it began.
    pub closed spec fn changed(&self) -> bool {
        self.changed
    }

    /// A recorder with no layers, no drawing and no image.
    pub fn new() -> (r: Self)
        ensures
            r.layers() == Seq::<L>::empty(),
            r.cache() is None,
            !r.changed(),
    {
        PageLog { layers: Vec::new(), cache: None, changed: false, rendered_from: Ghost(Seq::empty()) }
    }

    /// Notes that drawing commands were offered to the recorder; `drew`
    /// says whether a recording canvas was there to take them.
    pub fn record_drawing(&mut self, drew: bool)
        ensures
            final(self).layers() == old(self).layers(),
            final(self).cache() == old(self).cache(),
            final(self).changed() == (old(self).changed() || drew),
    {
        proof {
            use_type_invariant(&*self);
        }
        if drew {
            self.changed = true;
        }
    }

    /// Whether taking the page must close the open recording.
    pub fn needs_flush(&self) -> (r: bool)
        ensures
            r == self.changed(),
    {
        self.changed
    }

    /// Takes the closed recording into the layers: its picture, if there is
    /// one, goes on top; the drawing flag is cleared and the image dropped.
    pub fn flush(&mut self, finished: Option<L>)
        ensures
            final(self).layers() == with_layer(old(self).layers(), finished),
            finished matches Some(p) ==> final(self).layers() == old(self).layers().push(p),
            finished is None ==> final(self).layers() == old(self).layers(),
            final(self).cache() is None,
            !final(self).changed(),
    {
        self.cache = None;
        match finished {
            Some(p) => {
                let mut layers: Vec<L> = Vec::new();
                std::mem::swap(&mut layers, &mut self.layers);
                layers.push(p);
                self.layers = layers;
            },
            None => {},
        }
        self.changed = false;
    }

    /// The layers recorded so far, bottom first.
    pub fn layer_list(&self) -> (r: &Vec<L>)
        ensures
            r@ == self.layers(),
    {
        &self.layers
    }

    /// The page as it stands: a copy of the layers, and the given bounds.
    pub fn page<B>(&self, bounds: B) -> (r: Page<L, B>)
        where
            L: Clone,
        ensures
            r.layers.len() == self.layers().len(),
            forall|i: int| 0 <= i < r.layers.len() ==> cloned::<L>(self.layers()[i], #[trigger] r.layers@[i]),
            r.bounds == bounds,
    {
        Page { layers: self.layers.clone(), bounds }
    }

    /// The number of layers recorded so far.
    pub fn layer_count(&self) -> (n: usize)
        ensures
            n == self.layers().len(),
    {
        self.layers.len()
    }

    /// Whether an image must be rendered, none being kept.
    pub fn needs_image(&self) -> (r: bool)
        ensures
            r == (self.cache() is None),
    {
        self.cache.is_none()
    }

    /// Keeps an image rendered from the current layers.
    pub fn store_image(&mut self, image: Option<I>)
        ensures
            final(self).layers() == old(self).layers(),
            final(self).changed() == old(self).changed(),
            final(self).cache() == image,
            final(self).image_layers() == old(self).layers(),
    {
        self.rendered_from = Ghost(self.layers@);
        self.cache = image;
    }

    /// The image kept for the current layers, if any: one is only ever
    /// handed out for the layers it was rendered from.
    pub fn cached_image(&self) -> (r: &Option<I>)
        ensures
            *r == self.cache(),
            r is Some ==> self.image_layers() == self.layers(),
    {
        proof {
            use_type_invariant(self);
        }
        &self.cache
    }
}

/// Closing a recording that gave a picture puts exactly that picture on
/// top of the layers, whatever their number, and keeps the layers below;
/// one that gave none leaves the layers as they were.
pub proof fn law_closed_picture_goes_on_top<L>(layers: Seq<L>, p: L)
    ensures
        with_layer(layers, Some(p)).len() == layers.len() + 1,
        with_layer(layers, Some(p)).last() == p,
        with_layer(layers, Some(p)).subrange(0, layers.len() as int) == layers,
        with_layer(layers, None::<L>) == layers,
        page_taken(layers, true, Some(p)).0 == layers.push(p),
{
    assert(with_layer(layers, Some(p)).subrange(0, layers.len() as int) =~= layers);
}

/// Taking a page twice with no drawing in between gives the same layers the
/// second time: the second take closes nothing.
pub proof fn law_page_taken_twice<L>(layers: Seq<L>, changed: bool, first: Option<L>, second: Option<L>)
    ensures
        ({
            let once = page_taken(layers, changed, first);
            page_taken(once.0, once.1, second) == once
        }),
{
}

/// Taking a page never removes or reorders layers: the old layers stay at
/// the bottom, and at most one layer is added.
pub proof fn law_layers_only_grow<L>(layers: Seq<L>, changed: bool, finished: Option<L>)
    ensures
        ({
            let after = page_taken(layers, changed, finished).0;
            &&& after.subrange(0, layers.len() as int) == layers
            &&& layers.len() <= after.len() <= layers.len() + 1
        }),
{
    let after = page_taken(layers, changed, finished).0;
    assert(after.subrange(0, layers.len() as int) =~= layers);
}

} // verus!
