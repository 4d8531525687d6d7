//! Assembling the rendered output under the page and byte budgets.
use vstd::prelude::*;

use crate::encode::{encode_png, png_of};
use crate::preamble::same_text;
use crate::resolution::DESIRED_RESOLUTION;

verus! {

/// Most pages that raster output holds.
pub const PAGE_LIMIT: usize = 5;

/// Most bytes that the encoded pages of raster output hold together.
pub const BYTES_LIMIT: usize = 25 * 1024 * 1024;

/// Which conversion a render makes.
#[derive(Clone, Copy, Debug, PartialEq, Eq, Structural)]
pub enum OutputFormat {
    /// One encoded image per page.
    Png,
    /// One document holding every page.
    Pdf,
}

impl Default for OutputFormat {
    fn default() -> (r: Self)
        ensures
            r == OutputFormat::Png,
    {
        OutputFormat::Png
    }
}

impl OutputFormat {
    /// The format that a request names: `pdf` for vector output, anything
    /// else or nothing for raster output.
    pub open spec fn spec_from_name(name: Option<Seq<char>>) -> OutputFormat {
        match name {
            Some(n) => if n == "pdf"@ {
                OutputFormat::Pdf
            } else {
                OutputFormat::Png
            },
            None => OutputFormat::Png,
        }
    }

    pub fn from_name(name: Option<&str>) -> (r: OutputFormat)
        ensures
            r == OutputFormat::spec_from_name(
                match name {
                    Some(n) => Some(n@),
                    None => None,
                },
            ),
    {
        match name {
            Some(n) => if same_text(n, "pdf") {
                OutputFormat::Pdf
            } else {
                OutputFormat::Png
            },
            None => OutputFormat::Png,
        }
    }

    pub open spec fn spec_name(self) -> Seq<char> {
        match self {
            OutputFormat::Png => "png"@,
            OutputFormat::Pdf => "pdf"@,
        }
    }

    /// The format's name in a response.
    pub fn name(self) -> (r: &'static str)
        ensures
            r@ == self.spec_name(),
    {
        match self {
            OutputFormat::Png => "png",
            OutputFormat::Pdf => "pdf",
        }
    }

    /// The resolution that pages are rasterized for: the requested one, else
    /// `DESIRED_RESOLUTION`, for raster output; none for vector output, which
    /// has no pixels.
    pub fn resolution(self, requested: Option<u64>) -> (r: Option<u64>)
        ensures
            self == OutputFormat::Pdf ==> r is None,
            self == OutputFormat::Png ==> r == Some(
                match requested {
                    Some(d) => d,
                    None => DESIRED_RESOLUTION,
                },
            ),
    {
        match self {
            OutputFormat::Png => match requested {
                Some(d) => Some(d),
                None => Some(DESIRED_RESOLUTION),
            },
            OutputFormat::Pdf => None,
        }
    }
}

/// The encoder failed on a rasterized page: a fault of the encoder, not of
/// the document.
#[derive(Clone, Copy, Debug, PartialEq, Eq, Structural)]
pub struct EncodeError;

/// What a successful render hands back.
pub struct Rendered {
    /// The encoded outputs, in page order.
    pub images: Vec<Vec<u8>>,
    /// How many pages of the document the outputs leave out.
    pub more_pages: usize,
    /// The compiler's warnings, formatted.
    pub warnings: String,
}

/// The sum of `sizes`.
pub open spec fn total(sizes: Seq<nat>) -> nat
    decreases sizes.len(),
{
    if sizes.len() == 0 {
        0
    } else {
        total(sizes.drop_last()) + sizes.last()
    }
}

/// The length of the longest prefix of `sizes` whose sum is within `BYTES_LIMIT`.
pub open spec fn within_budget(sizes: Seq<nat>) -> nat
    decreases sizes.len(),
{
    if total(sizes) <= BYTES_LIMIT {
        sizes.len()
    } else {
        within_budget(sizes.drop_last())
    }
}

/// How many pages of a document of `pages` pages raster output may encode:
/// all of them, up to `PAGE_LIMIT`.
pub open spec fn pages_asked(pages: nat) -> nat {
    if pages < PAGE_LIMIT {
        pages
    } else {
        PAGE_LIMIT as nat
    }
}

/// How many pages raster output keeps of a document of `pages` pages whose
/// page `i` encodes to `sizes[i]` bytes: the first pages, at most
/// `PAGE_LIMIT`, as long as their sizes together stay within `BYTES_LIMIT`.
pub open spec fn kept(pages: nat, sizes: Seq<nat>) -> nat {
    let n = if sizes.len() < pages_asked(pages) {
        sizes.len()
    } else {
        pages_asked(pages)
    };
    within_budget(sizes.take(n as int))
}

/// The lengths of `images`.
pub open spec fn lengths(images: Seq<Vec<u8>>) -> Seq<nat> {
    images.map_values(|v: Vec<u8>| v@.len())
}

/// Raster output being assembled, page by page in document order.
///
/// The caller asks `next_page` which page to encode, encodes it, and hands
/// the bytes to `add_page`, until `next_page` says that no page is left.
pub struct RasterOutput {
    total_pages: usize,
    images: Vec<Vec<u8>>,
    total_bytes: usize,
    over_budget: bool,
    offered: Ghost<Seq<nat>>,
}

impl RasterOutput {
    /// Pages in the document.
    pub closed spec fn pages(&self) -> nat {
        self.total_pages as nat
    }

    /// The encoded pages kept so far.
    pub closed spec fn images(&self) -> Seq<Vec<u8>> {
        self.images@
    }

    /// The sizes of all encoded pages handed in so far, kept or not.
    pub closed spec fn offered(&self) -> Seq<nat> {
        self.offered@
    }

    /// No further page is to be encoded.
    pub open spec fn done(&self) -> bool {
        self.offered().len() >= pages_asked(self.pages()) || total(
            self.offered(),
        ) > BYTES_LIMIT
    }

    pub closed spec fn wf(&self) -> bool {
        &&& self.offered@.len() <= pages_asked(self.total_pages as nat)
        &&& lengths(self.images@) == self.offered@.take(self.images@.len() as int)
        &&& self.total_bytes == total(lengths(self.images@))
        &&& self.total_bytes <= BYTES_LIMIT
        &&& if self.over_budget {
            &&& self.offered@.len() == self.images@.len() + 1
            &&& total(self.offered@) > BYTES_LIMIT
        } else {
            self.offered@.len() == self.images@.len()
        }
    }

    /// Output for a document of `total_pages` pages, with no page yet.
    pub fn new(total_pages: usize) -> (r: Self)
        ensures
            r.wf(),
            r.pages() == total_pages,
            r.offered() == Seq::<nat>::empty(),
            r.images() == Seq::<Vec<u8>>::empty(),
    {
        let r = RasterOutput {
            total_pages,
            images: Vec::new(),
            total_bytes: 0,
            over_budget: false,
            offered: Ghost(Seq::empty()),
        };
        proof {
            assert(lengths(r.images@) =~= Seq::<nat>::empty());
            assert(r.offered@.take(0) =~= Seq::<nat>::empty());
        }
        r
    }

    /// The index of the page to encode next, or `None` once the page limit
    /// is reached, the document has no page left, or the last page handed in
    /// went over the byte budget.
    pub fn next_page(&self) -> (r: Option<usize>)
        requires
            self.wf(),
        ensures
            r is None <==> self.done(),
            r is Some ==> r->Some_0 == self.offered().len(),
    {
        if self.over_budget || self.images.len() >= PAGE_LIMIT || self.images.len()
            >= self.total_pages {
            None
        } else {
            proof {
                assert(self.offered@.take(self.images@.len() as int) =~= self.offered@);
            }
            Some(self.images.len())
        }
    }

    /// Hands in the encoded page that `next_page` named. It is kept when the
    /// kept pages together stay within `BYTES_LIMIT`; else it is dropped and
    /// no further page is asked for.
    pub fn add_page(&mut self, image: Vec<u8>)
        requires
            old(self).wf(),
            !old(self).done(),
        ensures
            final(self).wf(),
            final(self).pages() == old(self).pages(),
            final(self).offered() == old(self).offered().push(image@.len()),
            total(final(self).offered()) <= BYTES_LIMIT ==> final(self).images() == old(
                self,
            ).images().push(image),
            total(final(self).offered()) > BYTES_LIMIT ==> final(self).images() == old(
                self,
            ).images(),
    {
        proof {
            assert(self.offered@.take(self.images@.len() as int) =~= self.offered@);
        }
        let ghost before = self.offered@;
        let ghost new_offered = before.push(image@.len());
        proof {
            assert(new_offered.drop_last() =~= before);
        }
        let len = image.len();
        if len <= BYTES_LIMIT - self.total_bytes {
            let ghost old_images = self.images@;
            self.total_bytes = self.total_bytes + len;
            self.images.push(image);
            self.offered = Ghost(new_offered);
            proof {
                assert(lengths(self.images@) =~= lengths(old_images).push(len as nat));
                assert(lengths(self.images@).drop_last() =~= lengths(old_images));
                assert(self.offered@.take(self.images@.len() as int) =~= new_offered);
            }
        } else {
            self.over_budget = true;
            self.offered = Ghost(new_offered);
            proof {
                assert(self.offered@.take(self.images@.len() as int) =~= before);
            }
        }
    }

    /// Encodes the page that `next_page` named, rasterized to `pixels`
    /// (`width` × `height` pixels of RGBA, 8 bits per channel), as PNG, and
    /// hands the file in as `add_page` does. Where the encoder fails, nothing
    /// changes.
    pub fn add_png_page(&mut self, pixels: &[u8], width: u32, height: u32) -> (r: Result<
        (),
        EncodeError,
    >)
        requires
            old(self).wf(),
            !old(self).done(),
            pixels@.len() == 4 * width * height,
        ensures
            width > 0 && height > 0 ==> r is Ok,
            final(self).wf(),
            final(self).pages() == old(self).pages(),
            r is Err ==> final(self).offered() == old(self).offered() && final(self).images()
                == old(self).images(),
            r is Ok ==> final(self).offered() == old(self).offered().push(
                png_of(pixels@, width, height).len(),
            ),
            r is Ok && total(final(self).offered()) <= BYTES_LIMIT ==> {
                let imgs = final(self).images();
                imgs == old(self).images().push(imgs.last()) && imgs.last()@ == png_of(
                    pixels@,
                    width,
                    height,
                )
            },
            r is Ok && total(final(self).offered()) > BYTES_LIMIT ==> final(self).images() == old(
                self,
            ).images(),
    {
        match encode_png(pixels, width, height) {
            Ok(png) => {
                self.add_page(png);
                Ok(())
            },
            Err(_) => Err(EncodeError),
        }
    }

    /// The finished output: the kept pages, how many pages of the document
    /// they leave out, and the formatted warnings.
    pub fn into_rendered(self, warnings: String) -> (r: Rendered)
        requires
            self.wf(),
            self.done(),
        ensures
            r.images@ == self.images(),
            lengths(r.images@) == self.offered().take(r.images@.len() as int),
            total(lengths(r.images@)) <= BYTES_LIMIT,
            r.images@.len() == kept(self.pages(), self.offered()),
            forall|all: Seq<nat>|
                #![trigger kept(self.pages(), all)]
                self.offered().len() <= all.len() && all.take(self.offered().len() as int)
                    == self.offered() ==> kept(self.pages(), all) == r.images@.len(),
            r.more_pages == self.pages() - r.images@.len(),
            r.warnings@ == warnings@,
    {
        proof {
            let offered = self.offered@;
            assert(offered.take(offered.len() as int) =~= offered);
            lemma_done_keeps(&self, offered);
            assert forall|all: Seq<nat>|
                #![trigger kept(self.pages(), all)]
                offered.len() <= all.len() && all.take(offered.len() as int) == offered implies kept(
                    self.pages(),
                    all,
                ) == self.images@.len() by {
                lemma_done_keeps(&self, all);
            }
            assert(lengths(self.images@) == offered.take(self.images@.len() as int));
        }
        let more_pages = self.total_pages - self.images.len();
        Rendered { images: self.images, more_pages, warnings }
    }
}

/// Vector output: the one document `pdf` holds every page. `more_pages` is
/// the document's page count less one, as for raster output with one image.
pub fn vector_output(total_pages: usize, pdf: Vec<u8>, warnings: String) -> (r: Rendered)
    requires
        total_pages >= 1,
    ensures
        r.images@ == seq![pdf],
        r.more_pages == total_pages - 1,
        r.warnings@ == warnings@,
{
    let mut images: Vec<Vec<u8>> = Vec::new();
    images.push(pdf);
    Rendered { images, more_pages: total_pages - 1, warnings }
}

/// Finished raster output has kept as many pages as `kept` gives for the
/// sizes of all pages, of which the sizes handed in are the first.
proof fn lemma_done_keeps(out: &RasterOutput, all: Seq<nat>)
    requires
        out.wf(),
        out.done(),
        out.offered().len() <= all.len(),
        all.take(out.offered().len() as int) == out.offered(),
    ensures
        kept(out.pages(), all) == out.images().len(),
{
    let offered = out.offered@;
    if out.over_budget {
        assert(offered.drop_last() =~= offered.take(out.images@.len() as int));
        assert(within_budget(offered.drop_last()) == out.images@.len());
    } else {
        assert(offered.take(out.images@.len() as int) =~= offered);
    }
    let n = if all.len() < pages_asked(out.pages()) {
        all.len()
    } else {
        pages_asked(out.pages())
    };
    let s = all.take(n as int);
    assert(s.take(offered.len() as int) =~= offered);
    if out.over_budget {
        lemma_within_budget_extends(s, offered.len() as int);
    } else {
        assert(s =~= offered);
    }
}

/// Raster output run to the end over a document whose pages encode, in
/// order, to `all` bytes keeps the first pages up to `PAGE_LIMIT` when those
/// fit in `BYTES_LIMIT` together, and leaves out the rest.
pub proof fn lemma_raster_run_within_budget(out: &RasterOutput, all: Seq<nat>)
    requires
        out.wf(),
        out.done(),
        all.len() == out.pages(),
        out.offered().len() <= all.len(),
        all.take(out.offered().len() as int) == out.offered(),
        total(all.take(pages_asked(all.len()) as int)) <= BYTES_LIMIT,
    ensures
        out.images().len() == pages_asked(out.pages()),
        out.pages() - out.images().len() == out.pages() - pages_asked(out.pages()),
{
    lemma_done_keeps(out, all);
    lemma_kept_within_budget(all.len(), all);
}

/// Raster output keeps every page up to `PAGE_LIMIT` when their encoded
/// sizes together stay within `BYTES_LIMIT`, and leaves out the rest.
pub proof fn lemma_kept_within_budget(pages: nat, sizes: Seq<nat>)
    requires
        sizes.len() >= pages_asked(pages),
        total(sizes.take(pages_asked(pages) as int)) <= BYTES_LIMIT,
    ensures
        kept(pages, sizes) == pages_asked(pages),
        pages - kept(pages, sizes) == pages - pages_asked(pages),
{
}

/// Raster output never keeps more than `PAGE_LIMIT` pages, nor more pages
/// than the document has, nor pages whose sizes together exceed `BYTES_LIMIT`.
pub proof fn lemma_kept_bounded(pages: nat, sizes: Seq<nat>)
    ensures
        kept(pages, sizes) <= pages_asked(pages),
        total(sizes.take(kept(pages, sizes) as int)) <= BYTES_LIMIT,
{
    let n = if sizes.len() < pages_asked(pages) {
        sizes.len()
    } else {
        pages_asked(pages)
    };
    let s = sizes.take(n as int);
    lemma_within_budget(s);
    assert(s.take(within_budget(s) as int) =~= sizes.take(within_budget(s) as int));
}

proof fn lemma_total_prefix(s: Seq<nat>, k: int)
    requires
        0 <= k <= s.len(),
    ensures
        total(s.take(k)) <= total(s),
    decreases s.len(),
{
    if k < s.len() {
        lemma_total_prefix(s.drop_last(), k);
        assert(s.drop_last().take(k) =~= s.take(k));
    } else {
        assert(s.take(k) =~= s);
    }
}

/// Once a prefix is over the byte budget, pages after it change nothing.
proof fn lemma_within_budget_extends(s: Seq<nat>, k: int)
    requires
        0 <= k <= s.len(),
        total(s.take(k)) > BYTES_LIMIT,
    ensures
        within_budget(s) == within_budget(s.take(k)),
    decreases s.len(),
{
    if k == s.len() {
        assert(s.take(k) =~= s);
    } else {
        lemma_total_prefix(s, k);
        assert(s.drop_last().take(k) =~= s.take(k));
        lemma_within_budget_extends(s.drop_last(), k);
    }
}

proof fn lemma_within_budget(sizes: Seq<nat>)
    ensures
        within_budget(sizes) <= sizes.len(),
        total(sizes.take(within_budget(sizes) as int)) <= BYTES_LIMIT,
    decreases sizes.len(),
{
    if total(sizes) <= BYTES_LIMIT {
        assert(sizes.take(sizes.len() as int) =~= sizes);
    } else {
        let s = sizes.drop_last();
        lemma_within_budget(s);
        assert(s.take(within_budget(s) as int) =~= sizes.take(within_budget(s) as int));
    }
}

} // verus!
