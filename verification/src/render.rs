//! From a buffer to its codes: estimate the chunk size and cut; then, for
//! text, encode each chunk and lay the codes out one below the other, and
//! for bitmaps, say which chunk goes to which file.

use crate::bmp::{
    bitmap_name, bmp_path_checked, check_bmp_path, is_path_fault, numbered_file_name,
};
use crate::chunks::{chunks_of, split_chunks};
use crate::encoder::{encode_symbol, symbol_text, symbol_version, SymbolVersion};
use crate::error::Error;
use crate::estimate::{estimate_chunk, estimated, lemma_estimate_errors};
use crate::params::Params;
use crate::text::{heading, make_heading, push_repeated, repeated};
use vstd::prelude::*;
use vstd::string::StringExecFns;

verus! {

/// What of the options shapes the text.
pub struct Layout {
    /// The label of every caption.
    pub label: Seq<char>,
    /// Modules at the border of each code.
    pub border: u8,
    /// Blank lines between one code and the next.
    pub empty_lines: u8,
    /// Whether dark and light change places.
    pub invert: bool,
}

impl Params {
    /// The layout that the options ask for. No label is an empty label.
    pub open spec fn layout(&self) -> Layout {
        Layout {
            label: match self.label {
                Some(label) => label@,
                None => Seq::empty(),
            },
            border: self.border,
            empty_lines: self.empty_lines,
            invert: self.invert,
        }
    }
}

/// The text of code `index` out of `count`: its heading, its drawing, and
/// the blank lines that part it from the next code, if there is one.
pub open spec fn block(
    drawing: Seq<char>,
    version: SymbolVersion,
    index: nat,
    count: nat,
    layout: Layout,
) -> Seq<char> {
    heading(layout.label, index, count, version, layout.border) + drawing + if index + 1 < count {
        repeated('\n', layout.empty_lines as nat)
    } else {
        Seq::empty()
    }
}

/// The text of the first `done` chunks, or the failure of the first chunk
/// among them that cannot be encoded. The codes are drawn dark on light
/// unless the layout inverts them.
pub open spec fn page(chunks: Seq<Seq<u8>>, layout: Layout, done: nat) -> Result<Seq<char>, Error>
    decreases done,
{
    if done == 0 {
        Ok(Seq::empty())
    } else {
        let index = (done - 1) as nat;
        match page(chunks, layout, index) {
            Err(error) => Err(error),
            Ok(before) => match symbol_version(chunks[index as int]) {
                Err(failure) => Err(Error::Qr(failure)),
                Ok(version) => Ok(
                    before + block(
                        symbol_text(chunks[index as int], !layout.invert, layout.border),
                        version,
                        index,
                        chunks.len(),
                        layout,
                    ),
                ),
            },
        }
    }
}

/// The text of all the codes of `content`: the chunk size is estimated for
/// the wanted version, and the chunks are laid out in order.
pub open spec fn rendered(content: Seq<u8>, version: int, layout: Layout) -> Result<
    Seq<char>,
    Error,
> {
    match estimated(content, version) {
        Err(error) => Err(error),
        Ok(size) => page(chunks_of(content, size), layout, chunks_of(content, size).len()),
    }
}

/// One bitmap to write.
#[derive(Debug, PartialEq, Eq)]
pub struct Bitmap<'a> {
    /// The file name that takes the place of the one in the path, or none
    /// where the path is used as it was given.
    pub file_name: Option<String>,
    /// The bytes of the code.
    pub data: &'a [u8],
}

/// What is made of the input.
#[derive(Debug, PartialEq, Eq)]
pub enum Rendering<'a> {
    /// The codes as text, to be printed.
    Text(String),
    /// The codes to be written as bitmaps, in order.
    Bitmaps(Vec<Bitmap<'a>>),
}

/// The view of an optional text.
pub open spec fn text_view(text: Option<&str>) -> Option<Seq<char>> {
    match text {
        Some(text) => Some(text@),
        None => None,
    }
}

/// Whether `plan` sends the chunks of `content`, `size` bytes each, to the
/// files that go with the stem and the extension: every chunk in its
/// place, numbered where there are several.
pub open spec fn plans_bitmaps(
    plan: Seq<Bitmap<'_>>,
    content: Seq<u8>,
    size: nat,
    stem: Seq<char>,
    extension: Seq<char>,
) -> bool {
    let chunks = chunks_of(content, size);
    &&& plan.len() == chunks.len()
    &&& forall|i: int|
        #![trigger plan[i]]
        0 <= i < plan.len() ==> {
            &&& plan[i].data@ == chunks[i]
            &&& match plan[i].file_name {
                Some(name) => Some(name@),
                None => None,
            } == bitmap_name(stem, extension, i as nat, plan.len())
        }
}

/// Whether `result` is what the bitmap mode owes: the fault of the path
/// first, then the error of the estimate, else the plan of the files.
pub open spec fn is_bitmap_outcome(
    result: Result<Rendering<'_>, Error>,
    content: Seq<u8>,
    version: int,
    stem: Option<Seq<char>>,
    extension: Option<Seq<char>>,
) -> bool {
    match bmp_path_checked(stem, extension) {
        Err(error) => result == Err::<Rendering<'_>, Error>(error),
        Ok(()) => match estimated(content, version) {
            Err(error) => result == Err::<Rendering<'_>, Error>(error),
            Ok(size) => result matches Ok(Rendering::Bitmaps(plan)) && plans_bitmaps(
                plan@,
                content,
                size,
                stem->Some_0,
                extension->Some_0,
            ),
        },
    }
}

/// Whether `result` is what the text mode owes: the text of all the codes,
/// or the error that stood in its way.
pub open spec fn is_text_outcome(
    result: Result<Rendering<'_>, Error>,
    content: Seq<u8>,
    version: int,
    layout: Layout,
) -> bool {
    match rendered(content, version, layout) {
        Err(error) => result == Err::<Rendering<'_>, Error>(error),
        Ok(text) => result matches Ok(Rendering::Text(page)) && page@ == text,
    }
}

/// Renders `content` as one or more QR codes of at most the wanted version.
///
/// Without a bitmap path the codes come as text. With one, `stem` and
/// `extension` are the parts of that path: they are checked before anything
/// else, and the result says which chunk is to be written to which file.
/// Encoding the chunks as bitmaps and writing them is left to the caller.
/// A border of 255 modules is more than the encoder draws as text.
pub fn qr<'a>(
    content: &'a [u8],
    params: &Params,
    stem: Option<&str>,
    extension: Option<&str>,
) -> (result: Result<Rendering<'a>, Error>)
    requires
        params.bmp is None ==> params.border < u8::MAX,
    ensures
        params.bmp is Some ==> is_bitmap_outcome(
            result,
            content@,
            params.qr_version as int,
            text_view(stem),
            text_view(extension),
        ),
        params.bmp is None ==> is_text_outcome(
            result,
            content@,
            params.qr_version as int,
            params.layout(),
        ),
        (result matches Err(error) && is_path_fault(error)) <==> params.bmp is Some
            && bmp_path_checked(text_view(stem), text_view(extension)) is Err,
{
    proof {
        lemma_estimate_errors(content@, params.qr_version as int);
        lemma_rendered_errors(content@, params.qr_version as int, params.layout());
    }
    if params.bmp.is_some() {
        match check_bmp_path(stem, extension) {
            Err(error) => Err(error),
            Ok(()) => match plan_bitmaps(
                content,
                params.qr_version,
                stem.unwrap(),
                extension.unwrap(),
            ) {
                Ok(plan) => Ok(Rendering::Bitmaps(plan)),
                Err(error) => Err(error),
            },
        }
    } else {
        match render_text(content, params) {
            Ok(text) => Ok(Rendering::Text(text)),
            Err(error) => Err(error),
        }
    }
}

/// Says which chunk of `content` is to be written to which file.
pub fn plan_bitmaps<'a>(content: &'a [u8], qr_version: u8, stem: &str, extension: &str) -> (result:
    Result<Vec<Bitmap<'a>>, Error>)
    ensures
        match estimated(content@, qr_version as int) {
            Err(error) => result == Err::<Vec<Bitmap<'a>>, Error>(error),
            Ok(size) => result matches Ok(plan) && plans_bitmaps(
                plan@,
                content@,
                size,
                stem@,
                extension@,
            ),
        },
{
    let chunk_size: usize = match estimate_chunk(content, qr_version) {
        Ok(chunk_size) => chunk_size,
        Err(error) => {
            return Err(error);
        },
    };
    let chunks = split_chunks(content, chunk_size);
    let count: usize = chunks.len();
    let ghost pieces = chunks_of(content@, chunk_size as nat);
    let mut plan: Vec<Bitmap<'a>> = Vec::new();
    let mut index: usize = 0;
    while index < count
        invariant
            index <= count,
            count == chunks@.len(),
            chunks.deep_view() == pieces,
            plan@.len() == index,
            forall|i: int|
                #![trigger plan@[i]]
                0 <= i < index ==> {
                    &&& plan@[i].data@ == pieces[i]
                    &&& match plan@[i].file_name {
                        Some(name) => Some(name@),
                        None => None,
                    } == bitmap_name(stem@, extension@, i as nat, count as nat)
                },
        decreases count - index,
    {
        let data: &'a [u8] = chunks[index];
        assert(data@ == pieces[index as int]);
        let file_name: Option<String> = if count > 1 {
            Some(numbered_file_name(stem, index, extension))
        } else {
            None
        };
        plan.push(Bitmap { file_name, data });
        index = index + 1;
    }
    Ok(plan)
}

/// Renders `content` as one or more QR codes of at most the wanted version,
/// as text.
pub fn render_text(content: &[u8], params: &Params) -> (result: Result<String, Error>)
    requires
        params.border < u8::MAX,
    ensures
        match result {
            Ok(text) => rendered(content@, params.qr_version as int, params.layout()) == Ok::<
                Seq<char>,
                Error,
            >(text@),
            Err(error) => rendered(content@, params.qr_version as int, params.layout()) == Err::<
                Seq<char>,
                Error,
            >(error),
        },
{
    let chunk_size: usize = match estimate_chunk(content, params.qr_version) {
        Ok(chunk_size) => chunk_size,
        Err(error) => {
            return Err(error);
        },
    };
    let chunks = split_chunks(content, chunk_size);
    let count: usize = chunks.len();
    let label: &str = match &params.label {
        Some(label) => label.as_str(),
        None => "",
    };
    proof {
        reveal_strlit("");
        reveal_strlit("\n");
    }
    let ghost layout = params.layout();
    let ghost pieces = chunks_of(content@, chunk_size as nat);
    let mut text = String::new();
    let mut index: usize = 0;
    while index < count
        invariant
            index <= count,
            count == chunks@.len(),
            chunks.deep_view() == pieces,
            count == pieces.len(),
            rendered(content@, params.qr_version as int, params.layout()) == page(
                pieces,
                layout,
                count as nat,
            ),
            params.border < u8::MAX,
            layout == params.layout(),
            label@ == layout.label,
            "\n"@.len() == 1,
            "\n"@[0] == '\n',
            page(pieces, layout, index as nat) == Ok::<Seq<char>, Error>(text@),
        decreases count - index,
    {
        let chunk: &[u8] = chunks[index];
        assert(chunk@ == pieces[index as int]);
        match encode_symbol(chunk, !params.invert, params.border) {
            Err(failure) => {
                proof {
                    lemma_page_keeps_failing(pieces, layout, index as nat + 1, count as nat);
                }
                return Err(Error::Qr(failure));
            },
            Ok(symbol) => {
                let line = make_heading(label, index, count, symbol.version, params.border);
                text.append(line.as_str());
                text.append(symbol.text.as_str());
                if index < count - 1 {
                    push_repeated(&mut text, "\n", params.empty_lines as usize);
                }
                assert(text@ =~= page(pieces, layout, index as nat + 1)->Ok_0);
            },
        }
        index = index + 1;
    }
    Ok(text)
}

/// A page fails only on a chunk that cannot be encoded.
pub proof fn lemma_page_errors(chunks: Seq<Seq<u8>>, layout: Layout, done: nat)
    ensures
        page(chunks, layout, done) matches Err(error) ==> error is Qr,
    decreases done,
{
    if done > 0 {
        lemma_page_errors(chunks, layout, (done - 1) as nat);
    }
}

/// Rendering as text fails as the estimate fails, or on a chunk that cannot
/// be encoded; never on a bitmap path.
pub proof fn lemma_rendered_errors(content: Seq<u8>, version: int, layout: Layout)
    ensures
        rendered(content, version, layout) matches Err(error) ==> !is_path_fault(error),
{
    lemma_estimate_errors(content, version);
    match estimated(content, version) {
        Ok(size) => {
            lemma_page_errors(chunks_of(content, size), layout, chunks_of(content, size).len());
        },
        Err(_) => {},
    }
}

/// Once a chunk has failed, the chunks after it change nothing.
pub proof fn lemma_page_keeps_failing(chunks: Seq<Seq<u8>>, layout: Layout, failed: nat, done: nat)
    requires
        failed <= done,
        page(chunks, layout, failed) is Err,
    ensures
        page(chunks, layout, done) == page(chunks, layout, failed),
    decreases done,
{
    if failed < done {
        lemma_page_keeps_failing(chunks, layout, failed, (done - 1) as nat);
    }
}

} // verus!
