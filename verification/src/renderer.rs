//! The presentation interface a host renderer implements.
//!
//! A renderer takes the pixel buffer's packed bytes and shows them; the
//! exact byte order and row orientation it must expect are part of each
//! [`Screen`](crate::screen::Screen) variant's documentation. Window and
//! texture handling are the implementor's concern and live outside the
//! library.

use crate::screen::Screen;
use vstd::prelude::*;

verus! {

/// A consumer that presents a filled pixel buffer each frame.
pub trait Renderer {
    /// Shows the current contents of the buffer.
    fn render<S: Screen>(&mut self, screen: &S);
}

} // verus!
