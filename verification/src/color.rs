use vstd::prelude::*;

verus! {

/// ANSI escape selecting the bright blue foreground (256-colour code 111).
pub const BRIGHT_BLUE: &'static str = "\x1b[38;5;111m";

/// ANSI escape resetting all attributes.
pub const RST: &'static str = "\x1b[0m";

/// Wraps `text` in the colour escape `color`, followed by a reset.
pub fn c(text: &str, color: &str) -> (res: String)
    ensures
        res@ == color@ + text@ + RST@,
{
    let mut res = String::new();
    res.append(color);
    res.append(text);
    res.append(RST);
    res
}

} // verus!
