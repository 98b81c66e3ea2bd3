//! Helpers for the super-resolution models: the order of colour channels in a
//! tensor, the shape a tensor must have, and the course of a model download.

use crate::strings::{chars_of, decimal, push_decimal};
use vstd::prelude::*;
use vstd::string::StringExecFns;

verus! {

/// Where the Real-ESRGAN model is published.
pub const REALESRGAN_X4PLUS_ONNX: &'static str =
    "https://github.com/xinntao/Real-ESRGAN/releases/download/v0.2.5.0/realesrgan-x4plus.onnx";

/// Where the SwinIR model is published.
pub const SWINIR_X4_ONNX: &'static str =
    "https://github.com/JingyunLiang/SwinIR/releases/download/v0.0/swinir_x4.onnx";

/// The order of the colour channels in a tensor.
#[derive(Clone, Copy, Debug, PartialEq, Eq, Structural)]
pub enum ChannelOrder {
    /// Red, green, blue.
    Rgb,
    /// Blue, green, red, as many vision models take it.
    Bgr,
}

/// Why a helper for the models failed.
#[derive(Debug)]
pub enum AiError {
    /// The inference runtime failed; its words.
    Ort(String),
    /// Reading or writing failed; the system's words.
    Io(String),
    /// The transfer failed; the client's words.
    Http(String),
    /// A tensor has another shape than one image of three channels.
    InvalidTensorShape(Vec<usize>),
    /// The model gave no output.
    MissingOutput,
    /// The address names no file.
    MissingFilename(String),
}

/// A failure of a helper for the models, with its texts as sequences of
/// characters.
pub enum AiErrorView {
    Ort(Seq<char>),
    Io(Seq<char>),
    Http(Seq<char>),
    InvalidTensorShape(Seq<usize>),
    MissingOutput,
    MissingFilename(Seq<char>),
}

impl View for AiError {
    type V = AiErrorView;

    open spec fn view(&self) -> AiErrorView {
        match self {
            AiError::Ort(s) => AiErrorView::Ort(s@),
            AiError::Io(s) => AiErrorView::Io(s@),
            AiError::Http(s) => AiErrorView::Http(s@),
            AiError::InvalidTensorShape(shape) => AiErrorView::InvalidTensorShape(shape@),
            AiError::MissingOutput => AiErrorView::MissingOutput,
            AiError::MissingFilename(s) => AiErrorView::MissingFilename(s@),
        }
    }
}

/// The numbers of a list in decimal, with a comma and a space between each
/// two.
pub open spec fn listed(numbers: Seq<usize>) -> Seq<char>
    decreases numbers.len(),
{
    if numbers.len() == 0 {
        Seq::<char>::empty()
    } else if numbers.len() == 1 {
        decimal(numbers[0] as nat)
    } else {
        listed(numbers.drop_last()) + ", "@ + decimal(numbers.last() as nat)
    }
}

impl AiErrorView {
    /// The report of the failure.
    pub open spec fn message_of(self) -> Seq<char> {
        match self {
            AiErrorView::Ort(words) => "ORT error: "@ + words,
            AiErrorView::Io(words) => "IO error: "@ + words,
            AiErrorView::Http(words) => "HTTP error: "@ + words,
            AiErrorView::InvalidTensorShape(shape) => "unexpected tensor shape: ["@ + listed(shape)
                + "]"@,
            AiErrorView::MissingOutput => "model run did not produce any outputs"@,
            AiErrorView::MissingFilename(url) => "failed to derive filename from URL "@ + url,
        }
    }
}

impl AiError {
    /// The report of the failure.
    pub fn message(&self) -> (r: String)
        ensures
            r@ == self@.message_of(),
    {
        match self {
            AiError::Ort(words) => {
                let mut text = String::from_str("ORT error: ");
                text.append(words.as_str());
                text
            },
            AiError::Io(words) => {
                let mut text = String::from_str("IO error: ");
                text.append(words.as_str());
                text
            },
            AiError::Http(words) => {
                let mut text = String::from_str("HTTP error: ");
                text.append(words.as_str());
                text
            },
            AiError::InvalidTensorShape(shape) => {
                let mut text = String::from_str("unexpected tensor shape: [");
                let ghost head = text@;
                let mut i: usize = 0;
                assert(text@ =~= head + listed(shape@.take(0)));
                while i < shape.len()
                    invariant
                        i <= shape@.len(),
                        text@ == head + listed(shape@.take(i as int)),
                    decreases shape@.len() - i,
                {
                    proof {
                        assert(shape@.take(i + 1).drop_last() =~= shape@.take(i as int));
                        assert(shape@.take(i + 1).last() == shape@[i as int]);
                    }
                    let ghost before = text@;
                    if i > 0 {
                        text.append(", ");
                    }
                    push_decimal(&mut text, shape[i]);
                    proof {
                        if i > 0 {
                            assert(text@ =~= head + (listed(shape@.take(i as int)) + ", "@ + decimal(
                                shape@[i as int] as nat,
                            )));
                        } else {
                            assert(listed(shape@.take(0)) =~= Seq::<char>::empty());
                            assert(text@ =~= head + decimal(shape@[0] as nat));
                        }
                    }
                    i += 1;
                }
                assert(shape@.take(i as int) =~= shape@);
                text.append("]");
                text
            },
            AiError::MissingOutput => String::from_str("model run did not produce any outputs"),
            AiError::MissingFilename(url) => {
                let mut text = String::from_str("failed to derive filename from URL ");
                text.append(url.as_str());
                text
            },
        }
    }
}

/// The places of red, green and blue among the channels of a tensor.
pub open spec fn channel_places(order: ChannelOrder) -> (usize, usize, usize) {
    match order {
        ChannelOrder::Rgb => (0usize, 1usize, 2usize),
        ChannelOrder::Bgr => (2usize, 1usize, 0usize),
    }
}

/// Tells where red, green and blue stand among the channels of a tensor.
pub fn channel_indices(order: ChannelOrder) -> (r: (usize, usize, usize))
    ensures
        r == channel_places(order),
{
    match order {
        ChannelOrder::Rgb => (0, 1, 2),
        ChannelOrder::Bgr => (2, 1, 0),
    }
}

/// A tensor holds one image of three channels.
pub open spec fn is_image_shape(shape: Seq<usize>) -> bool {
    shape.len() == 4 && shape[0] == 1 && shape[1] == 3
}

/// Reads the height and the width off the shape of a tensor that holds one
/// image of three channels. Any other shape is refused.
pub fn image_dimensions(shape: &[usize]) -> (r: Result<(usize, usize), AiError>)
    ensures
        is_image_shape(shape@) ==> r == Ok::<(usize, usize), AiError>((shape@[2], shape@[3])),
        !is_image_shape(shape@) ==> (r matches Err(e) && e@ == AiErrorView::InvalidTensorShape(
            shape@,
        )),
{
    if shape.len() != 4 || shape[0] != 1 || shape[1] != 3 {
        let mut copy: Vec<usize> = Vec::new();
        let mut i: usize = 0;
        while i < shape.len()
            invariant
                i <= shape@.len(),
                copy@ == shape@.take(i as int),
            decreases shape@.len() - i,
        {
            copy.push(shape[i]);
            assert(copy@ =~= shape@.take(i + 1));
            i += 1;
        }
        assert(shape@.take(i as int) =~= shape@);
        return Err(AiError::InvalidTensorShape(copy));
    }
    Ok((shape[2], shape[3]))
}

/// The part of an address behind its last slash.
pub open spec fn last_segment(url: Seq<char>) -> Seq<char>
    decreases url.len(),
{
    if url.len() == 0 || url.last() == '/' {
        Seq::<char>::empty()
    } else {
        last_segment(url.drop_last()).push(url.last())
    }
}

/// The name of the file that an address names: the part behind its last
/// slash, which must not be empty.
pub fn model_filename(url: &str) -> (r: Result<String, AiError>)
    ensures
        last_segment(url@).len() > 0 ==> (r matches Ok(name) && name@ == last_segment(url@)),
        last_segment(url@).len() == 0 ==> (r matches Err(e) && e@ == AiErrorView::MissingFilename(
            url@,
        )),
{
    let chars = chars_of(url);
    let len = chars.len();
    let mut start: usize = len;
    assert(chars@.subrange(len as int, len as int) =~= Seq::<char>::empty());
    assert(chars@.take(len as int) =~= chars@);
    while start > 0 && chars[start - 1] != '/'
        invariant
            len == chars@.len(),
            start <= len,
            last_segment(chars@) == last_segment(chars@.take(start as int)) + chars@.subrange(
                start as int,
                len as int,
            ),
        decreases start,
    {
        proof {
            let part = chars@.take(start as int);
            assert(part.drop_last() =~= chars@.take(start - 1));
            assert(last_segment(part.drop_last()).push(part.last()) + chars@.subrange(
                start as int,
                len as int,
            ) =~= last_segment(part.drop_last()) + chars@.subrange(start - 1, len as int));
        }
        start -= 1;
    }
    proof {
        let part = chars@.take(start as int);
        if start > 0 {
            assert(part.last() == '/');
        }
        assert(last_segment(part) =~= Seq::<char>::empty());
        assert(last_segment(chars@) =~= chars@.subrange(start as int, len as int));
    }
    if start == len {
        return Err(AiError::MissingFilename(String::from_str(url)));
    }
    let mut name = String::new();
    let mut i: usize = start;
    while i < len
        invariant
            start <= i <= len,
            len == chars@.len(),
            name@ == chars@.subrange(start as int, i as int),
        decreases len - i,
    {
        name.push(chars[i]);
        assert(chars@.subrange(start as int, i + 1) =~= chars@.subrange(start as int, i as int).push(
            chars@[i as int],
        ));
        i += 1;
    }
    Ok(name)
}

/// How far a download has come.
#[derive(Clone, Copy, Debug, PartialEq, Eq, Structural)]
pub struct Progress {
    pub downloaded: u64,
    /// The size of the file, where the server has told it.
    pub total: Option<u64>,
}

/// A download of a model as it goes on: the name under which the file is
/// stored, how much of it has come, and whether progress is reported.
#[derive(Debug)]
pub struct Download {
    pub filename: String,
    pub progress: Progress,
    pub reports: bool,
}

/// What is to be done after a read from the server.
#[derive(Clone, Copy, Debug, PartialEq, Eq, Structural)]
pub enum DownloadAction {
    /// Nothing came: the file is complete.
    Finish,
    /// Write the bytes that came, report the progress if there is any to
    /// report, and read on.
    Write { len: usize, report: Option<Progress> },
}

/// Sets out to download the model at an address, without reports of
/// progress. The address must name a file.
pub fn download_model(url: &str) -> (r: Result<Download, AiError>)
    ensures
        last_segment(url@).len() > 0 ==> (r matches Ok(download) && download.filename@
            == last_segment(url@) && download.progress == (Progress { downloaded: 0, total: None })
            && !download.reports),
        last_segment(url@).len() == 0 ==> (r matches Err(e) && e@ == AiErrorView::MissingFilename(
            url@,
        )),
{
    download_model_with_progress(url, false)
}

/// Sets out to download the model at an address, with reports of progress
/// if they are asked for. The address must name a file.
pub fn download_model_with_progress(url: &str, reports: bool) -> (r: Result<Download, AiError>)
    ensures
        last_segment(url@).len() > 0 ==> (r matches Ok(download) && download.filename@
            == last_segment(url@) && download.progress == (Progress { downloaded: 0, total: None })
            && download.reports == reports),
        last_segment(url@).len() == 0 ==> (r matches Err(e) && e@ == AiErrorView::MissingFilename(
            url@,
        )),
{
    let filename = model_filename(url)?;
    Ok(Download { filename, progress: Progress { downloaded: 0, total: None }, reports })
}

impl Download {
    /// Notes the size of the file as the server tells it.
    pub fn expect(&mut self, total: Option<u64>)
        ensures
            final(self).progress == (Progress { total, ..old(self).progress }),
            final(self).filename == old(self).filename,
            final(self).reports == old(self).reports,
    {
        self.progress.total = total;
    }

    /// Takes note of a read of `read` bytes and tells what to do with them.
    /// A read of nothing ends the download.
    pub fn received(&mut self, read: usize) -> (action: DownloadAction)
        requires
            old(self).progress.downloaded + read <= u64::MAX,
        ensures
            final(self).filename == old(self).filename,
            final(self).reports == old(self).reports,
            final(self).progress == (Progress {
                downloaded: (old(self).progress.downloaded + read) as u64,
                ..old(self).progress
            }),
            read == 0 ==> action == DownloadAction::Finish,
            read > 0 ==> action == (DownloadAction::Write {
                len: read,
                report: if old(self).reports {
                    Some(final(self).progress)
                } else {
                    None
                },
            }),
    {
        if read == 0 {
            return DownloadAction::Finish;
        }
        self.progress.downloaded = self.progress.downloaded + read as u64;
        DownloadAction::Write {
            len: read,
            report: if self.reports {
                Some(self.progress)
            } else {
                None
            },
        }
    }
}

} // verus!
