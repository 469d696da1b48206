use vstd::prelude::*;
use crate::img::{Img, ImgLayer};

verus! {

/// Walks the layers of an image in order; after the last one it gives `None` and
/// starts over.
pub struct LayersIterator<'own, T> {
    img: &'own Img<T>,
    curr_layer_num: usize,
}

impl<'own, T: Copy> LayersIterator<'own, T> {
    pub closed spec fn image(&self) -> Img<T> {
        *self.img
    }

    /// How many layers have been given since the walk started.
    pub closed spec fn index(&self) -> int {
        self.curr_layer_num as int
    }

    pub fn new(img: &'own Img<T>) -> (r: Self)
        ensures
            r.image() == *img,
            r.index() == 0,
    {
        LayersIterator { img, curr_layer_num: 0 }
    }

    /// The next layer, or `None` after the last one, when the walk goes back to the first.
    pub fn next(&mut self) -> (r: Option<&'own ImgLayer<T>>)
        requires
            0 <= old(self).index() <= old(self).image().layer_seq().len(),
        ensures
            final(self).image() == old(self).image(),
            0 <= final(self).index() <= final(self).image().layer_seq().len(),
            old(self).index() < old(self).image().layer_seq().len() ==> {
                &&& r is Some
                &&& *r->0 == old(self).image().layer_seq()[old(self).index()]
                &&& final(self).index() == old(self).index() + 1
            },
            old(self).index() == old(self).image().layer_seq().len() ==> {
                &&& r is None
                &&& final(self).index() == 0
            },
    {
        let curr_num = self.curr_layer_num;
        if self.curr_layer_num < self.img.layers().len() {
            self.curr_layer_num = self.curr_layer_num + 1;
            Some(self.img.layer(curr_num))
        } else {
            self.curr_layer_num = 0;
            None
        }
    }
}

} // verus!
