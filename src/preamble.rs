//! The text put before the user's source: page size and colours.
use vstd::prelude::*;

verus! {

/// The colours a document is set in.
#[derive(Clone, Copy, Debug, PartialEq, Eq, Structural)]
pub enum Theme {
    Transparent,
    Light,
    Dark,
}

/// A theme name that is none of the known ones.
#[derive(Clone, Copy, Debug, PartialEq, Eq, Structural)]
pub struct InvalidTheme;

impl Default for Theme {
    fn default() -> (r: Self)
        ensures
            r == Theme::Dark,
    {
        Theme::Dark
    }
}

/// `a` and `b` hold the same text.
pub(crate) fn same_text(a: &str, b: &str) -> (r: bool)
    ensures
        r == (a@ == b@),
{
    let a = a.to_owned();
    let b = b.to_owned();
    a == b
}

impl Theme {
    /// The theme that `s` names, by full name or initial.
    pub open spec fn spec_from_str(s: Seq<char>) -> Result<Theme, InvalidTheme> {
        if s == "transparent"@ || s == "t"@ {
            Ok(Theme::Transparent)
        } else if s == "light"@ || s == "l"@ {
            Ok(Theme::Light)
        } else if s == "dark"@ || s == "d"@ {
            Ok(Theme::Dark)
        } else {
            Err(InvalidTheme)
        }
    }

    pub fn from_str(s: &str) -> (r: Result<Theme, InvalidTheme>)
        ensures
            r == Theme::spec_from_str(s@),
    {
        if same_text(s, "transparent") || same_text(s, "t") {
            Ok(Theme::Transparent)
        } else if same_text(s, "light") || same_text(s, "l") {
            Ok(Theme::Light)
        } else if same_text(s, "dark") || same_text(s, "d") {
            Ok(Theme::Dark)
        } else {
            Err(InvalidTheme)
        }
    }

    pub open spec fn spec_preamble(self) -> Seq<char> {
        match self {
            Theme::Transparent => ""@,
            Theme::Light => "#set page(fill: white)\n"@,
            Theme::Dark => "#set page(fill: rgb(49, 51, 56))\n#set text(fill: rgb(219, 222, 225))\n"@,
        }
    }

    /// The lines that set the theme's colours.
    pub fn preamble(self) -> (r: &'static str)
        ensures
            r@ == self.spec_preamble(),
    {
        match self {
            Theme::Transparent => "",
            Theme::Light => "#set page(fill: white)\n",
            Theme::Dark => "#set page(fill: rgb(49, 51, 56))\n#set text(fill: rgb(219, 222, 225))\n",
        }
    }
}

/// How pages are sized.
#[derive(Clone, Copy, Debug, PartialEq, Eq, Structural)]
pub enum PageSize {
    /// A narrow page as tall as its content.
    Preview,
    /// A page as wide and as tall as its content.
    Auto,
    /// The compiler's own page size.
    Default,
}

/// A page size name that is none of the known ones.
#[derive(Clone, Copy, Debug, PartialEq, Eq, Structural)]
pub struct InvalidPageSize;

impl Default for PageSize {
    fn default() -> (r: Self)
        ensures
            r == PageSize::Preview,
    {
        PageSize::Preview
    }
}

impl PageSize {
    /// The page size that `s` names, by full name or initial.
    pub open spec fn spec_from_str(s: Seq<char>) -> Result<PageSize, InvalidPageSize> {
        if s == "preview"@ || s == "p"@ {
            Ok(PageSize::Preview)
        } else if s == "auto"@ || s == "a"@ {
            Ok(PageSize::Auto)
        } else if s == "default"@ || s == "d"@ {
            Ok(PageSize::Default)
        } else {
            Err(InvalidPageSize)
        }
    }

    pub fn from_str(s: &str) -> (r: Result<PageSize, InvalidPageSize>)
        ensures
            r == PageSize::spec_from_str(s@),
    {
        if same_text(s, "preview") || same_text(s, "p") {
            Ok(PageSize::Preview)
        } else if same_text(s, "auto") || same_text(s, "a") {
            Ok(PageSize::Auto)
        } else if same_text(s, "default") || same_text(s, "d") {
            Ok(PageSize::Default)
        } else {
            Err(InvalidPageSize)
        }
    }

    pub open spec fn spec_preamble(self) -> Seq<char> {
        match self {
            PageSize::Preview => "#set page(width: 300pt, height: auto, margin: 10pt)\n"@,
            PageSize::Auto => "#set page(width: auto, height: auto, margin: 10pt)\n"@,
            PageSize::Default => ""@,
        }
    }

    /// The line that sets the page size.
    pub fn preamble(self) -> (r: &'static str)
        ensures
            r@ == self.spec_preamble(),
    {
        match self {
            PageSize::Preview => "#set page(width: 300pt, height: auto, margin: 10pt)\n",
            PageSize::Auto => "#set page(width: auto, height: auto, margin: 10pt)\n",
            PageSize::Default => "",
        }
    }
}

/// The settings put before the user's source.
#[derive(Clone, Copy, Debug, PartialEq, Eq, Structural)]
pub struct Preamble {
    pub page_size: PageSize,
    pub theme: Theme,
}

impl Default for Preamble {
    fn default() -> (r: Self)
        ensures
            r == (Preamble { page_size: PageSize::Preview, theme: Theme::Dark }),
    {
        Preamble { page_size: PageSize::default(), theme: Theme::default() }
    }
}

impl Preamble {
    /// Nothing is set: the page size and the theme both leave the defaults.
    pub open spec fn is_empty(self) -> bool {
        self.page_size == PageSize::Default && self.theme == Theme::Transparent
    }

    pub open spec fn spec_preamble(self) -> Seq<char> {
        if self.is_empty() {
            Seq::empty()
        } else {
            "// Begin preamble\n// Page size:\n"@ + self.page_size.spec_preamble()
                + "// Theme:\n"@ + self.theme.spec_preamble() + "// End preamble\n"@
        }
    }

    /// The preamble's text: empty when nothing is set, else the page size's
    /// and the theme's lines between comment lines.
    pub fn preamble(self) -> (r: String)
        ensures
            r@ == self.spec_preamble(),
    {
        if self.page_size == PageSize::Default && self.theme == Theme::Transparent {
            String::new()
        } else {
            let mut r = String::from_str("// Begin preamble\n// Page size:\n");
            r.append(self.page_size.preamble());
            r.append("// Theme:\n");
            r.append(self.theme.preamble());
            r.append("// End preamble\n");
            r
        }
    }

    /// `code` with the preamble put before it.
    pub fn apply(self, code: &str) -> (r: String)
        ensures
            r@ == self.spec_preamble() + code@,
    {
        let mut r = self.preamble();
        r.append(code);
        r
    }
}

} // verus!
