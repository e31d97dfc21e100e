use vstd::prelude::*;

verus! {

/// Whether output is colored with ANSI escapes.
#[derive(Clone, Copy, Debug, PartialEq, Eq, Structural)]
pub struct ColorChoice {
    enabled: bool,
}

/// `text` wrapped in the escape sequence `ESC[codem`, reset after.
pub open spec fn painted(code: Seq<char>, text: Seq<char>) -> Seq<char> {
    "\x1b["@ + code + "m"@ + text + "\x1b[0m"@
}

impl ColorChoice {
    pub closed spec fn is_enabled(self) -> bool {
        self.enabled
    }

    /// Color is on unless `--no-color` was given or `NO_COLOR` is set.
    pub fn new(no_color: bool, no_color_env_set: bool) -> (r: ColorChoice)
        ensures
            r.is_enabled() == (!no_color && !no_color_env_set),
    {
        ColorChoice { enabled: !no_color && !no_color_env_set }
    }

    pub fn enabled(self) -> (r: bool)
        ensures
            r == self.is_enabled(),
    {
        self.enabled
    }

    /// The text in the given SGR code when color is on, else as it is.
    pub fn paint(self, code: &str, text: &str) -> (r: String)
        ensures
            self.is_enabled() ==> r@ == painted(code@, text@),
            !self.is_enabled() ==> r@ == text@,
    {
        if self.enabled {
            let mut r = "\x1b[".to_owned();
            r.append(code);
            r.append("m");
            r.append(text);
            r.append("\x1b[0m");
            r
        } else {
            text.to_owned()
        }
    }

    pub fn bold(self, text: &str) -> (r: String)
        ensures
            self.is_enabled() ==> r@ == painted("1"@, text@),
            !self.is_enabled() ==> r@ == text@,
    {
        self.paint("1", text)
    }

    pub fn dim(self, text: &str) -> (r: String)
        ensures
            self.is_enabled() ==> r@ == painted("2"@, text@),
            !self.is_enabled() ==> r@ == text@,
    {
        self.paint("2", text)
    }

    pub fn red(self, text: &str) -> (r: String)
        ensures
            self.is_enabled() ==> r@ == painted("31"@, text@),
            !self.is_enabled() ==> r@ == text@,
    {
        self.paint("31", text)
    }

    pub fn bold_green(self, text: &str) -> (r: String)
        ensures
            self.is_enabled() ==> r@ == painted("1;32"@, text@),
            !self.is_enabled() ==> r@ == text@,
    {
        self.paint("1;32", text)
    }

    pub fn bold_cyan(self, text: &str) -> (r: String)
        ensures
            self.is_enabled() ==> r@ == painted("1;36"@, text@),
            !self.is_enabled() ==> r@ == text@,
    {
        self.paint("1;36", text)
    }

    pub fn blue(self, text: &str) -> (r: String)
        ensures
            self.is_enabled() ==> r@ == painted("34"@, text@),
            !self.is_enabled() ==> r@ == text@,
    {
        self.paint("34", text)
    }

    pub fn green(self, text: &str) -> (r: String)
        ensures
            self.is_enabled() ==> r@ == painted("32"@, text@),
            !self.is_enabled() ==> r@ == text@,
    {
        self.paint("32", text)
    }

    pub fn yellow(self, text: &str) -> (r: String)
        ensures
            self.is_enabled() ==> r@ == painted("33"@, text@),
            !self.is_enabled() ==> r@ == text@,
    {
        self.paint("33", text)
    }

    pub fn magenta(self, text: &str) -> (r: String)
        ensures
            self.is_enabled() ==> r@ == painted("35"@, text@),
            !self.is_enabled() ==> r@ == text@,
    {
        self.paint("35", text)
    }
}

} // verus!
