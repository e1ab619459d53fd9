//! Text labels as the core knows them: what a label says and which font
//! and scale it is drawn with.  Rasterisation lives outside the core.

use vstd::prelude::*;

verus! {

/// A font pixel scale.
#[derive(Copy, Clone, PartialEq, Eq, Structural, Hash, Debug)]
pub struct Scale {
    pub y: u32,
}

/// A handle to a loaded font face together with the scale to draw at.
#[derive(Copy, Clone, PartialEq, Eq, Structural, Hash, Debug)]
pub struct Font {
    pub id: usize,
    pub scale: Scale,
}

impl Font {
    /// The same face at another scale.
    pub fn scale(&self, scale: Scale) -> (r: Font)
        ensures
            r.id == self.id,
            r.scale == scale,
    {
        Font { id: self.id, scale }
    }
}

/// A run of text to draw.
#[derive(Clone)]
pub struct TextFragment {
    pub text: String,
}

impl TextFragment {
    /// Wraps the given text.
    pub fn new(text: String) -> (r: TextFragment)
        ensures
            r.text@ == text@,
    {
        TextFragment { text }
    }
}

/// A drawable label: the fragment to draw and, once chosen, the font to
/// draw it with.
pub struct Text {
    pub font: Option<Font>,
    pub fragment: TextFragment,
}

impl Text {
    /// A label with no font chosen yet.
    pub fn new(fragment: TextFragment) -> (r: Text)
        ensures
            r.font is None,
            r.fragment.text@ == fragment.text@,
    {
        Text { font: None, fragment }
    }

    /// Chooses the font and the scale the label is drawn with.
    pub fn set_font(&mut self, font: Font, font_scale: Scale)
        ensures
            final(self).font == Some((Font { id: font.id, scale: font_scale })),
            final(self).fragment.text@ == old(self).fragment.text@,
    {
        self.font = Some(font.scale(font_scale));
    }
}

/// How overlapping pixels combine; no mode is implemented by this engine.
#[derive(Copy, Clone, Debug)]
pub enum BlendMode {
    NotImplemented,
}

/// How a texture is sampled when scaled.
#[derive(Copy, Clone, Debug)]
pub enum FilterMode {
    Linear,
}

} // verus!
