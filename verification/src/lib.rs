/*!
Sparse fixed-capacity pixel containers and the drawing layers built on them.

A canvas behaves as if every cell holds a value while physically storing only
the cells that differ from a declared default; the `illusion` module holds the
verified containers and the `pixels` module the canvas layers above them.
*/

pub mod illusion;
pub mod pixels;
pub mod image;
pub mod prelude;
