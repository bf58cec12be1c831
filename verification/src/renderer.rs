//! The renderer's builder, as far as fonts go.
use vstd::prelude::*;

verus! {

/// Builds a renderer. Raw font buffers handed to it are kept, in the order
/// given, for its font searcher.
pub struct TypstRendererBuilder {
    fonts: Vec<Vec<u8>>,
}

impl View for TypstRendererBuilder {
    type V = Seq<Seq<u8>>;

    closed spec fn view(&self) -> Seq<Seq<u8>> {
        self.fonts@.map_values(|f: Vec<u8>| f@)
    }
}

impl TypstRendererBuilder {
    /// A builder that holds no font yet.
    pub fn new() -> (b: Self)
        ensures
            b@ == Seq::<Seq<u8>>::empty(),
    {
        let b = TypstRendererBuilder { fonts: Vec::new() };
        assert(b@ =~= Seq::<Seq<u8>>::empty());
        b
    }

    /// Adds the raw data of a font file; those added before stay in place.
    pub fn add_raw_font_internal(&mut self, font_buffer: Vec<u8>)
        ensures
            final(self)@ == old(self)@.push(font_buffer@),
    {
        let ghost v = font_buffer@;
        self.fonts.push(font_buffer);
        assert(self@ =~= old(self)@.push(v));
    }

    /// The number of fonts added.
    pub fn font_count(&self) -> (n: usize)
        ensures
            n == self@.len(),
    {
        self.fonts.len()
    }

    /// The data of the `i`-th font added.
    pub fn font_data(&self, i: usize) -> (d: &Vec<u8>)
        requires
            i < self@.len(),
        ensures
            d@ == self@[i as int],
    {
        &self.fonts[i]
    }
}

} // verus!
