//! The fixed symbol rendered as a blank silhouette in the rain: a
//! stylized bitcoin glyph drawn with a repeated marker character.

use vstd::prelude::*;

verus! {

/// Byte whose positions in the art count as filled silhouette pixels.
pub const MARKER: u8 = 48;

/// The symbol's source art. Every `0` is a filled pixel; spaces and the
/// leading blank line are empty.
pub const SYMBOL_ART: &'static str = r#"
   000    000  
   000    000
   000    000
00000000000000000000
000000000000000000000  
   000             000 
   000             000 
   000             000 
   000             000 
   000             000 
   000             000 
   00000000000000000
   00000000000000000
   000             000 
   000             000 
   000             000 
   000             000 
   000             000 
   000             000 
000000000000000000000
00000000000000000000  
   000    000 
   000    000 
   000    000
   000    000
"#;

} // verus!
