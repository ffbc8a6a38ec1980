//! Model catalogue and download bookkeeping.
//!
//! The catalogue lists the downloadable speech-recognition models.  This
//! module looks models up, names their files, annotates the catalogue with
//! what is on disk, and renders download digests; the network and file
//! work is done by the application shell.
use vstd::prelude::*;
use crate::text::{chars_of, string_of, trim_chars, trim};

verus! {

/// One downloadable model.
#[derive(Clone, Copy, Debug)]
pub struct CatalogueEntry {
    pub id: &'static str,
    pub name: &'static str,
    pub description: &'static str,
    /// Approximate size shown before downloading.
    pub size_mb: u32,
    pub url: &'static str,
}

/// A catalogue entry annotated with its download status.
#[derive(Debug)]
pub struct ModelEntry {
    pub id: &'static str,
    pub name: &'static str,
    pub description: &'static str,
    /// Approximate size shown to the user before downloading.
    pub size_mb: u32,
    /// `true` when the model file is present on disk.
    pub downloaded: bool,
    /// Path to the model file, if downloaded.
    pub path: Option<String>,
    /// SHA-256 hex stored in the sidecar `.sha256` file, if present.
    pub sha256: Option<String>,
}

/// Payload of a finished download.
#[derive(Debug)]
pub struct DonePayload {
    pub model_id: String,
    pub path: String,
    pub sha256: String,
}

/// Payload of a failed download.
#[derive(Debug)]
pub struct ErrorPayload {
    pub model_id: String,
    pub error: String,
}

/// What the shell found on disk for one catalogue entry.
#[derive(Debug)]
pub struct ModelStatus {
    /// The model file exists.
    pub downloaded: bool,
    /// The model file's path, as text.
    pub path: String,
    /// The contents of the `.sha256` sidecar file, if it could be read.
    pub stored_hash: Option<String>,
}

/// The ids of the catalogue, in order.
pub open spec fn catalogue_ids() -> Seq<Seq<char>> {
    seq![
        "tiny.en"@,
        "tiny"@,
        "base.en"@,
        "base"@,
        "small.en"@,
        "small"@,
        "medium.en"@,
        "medium"@,
    ]
}

/// The display names of the catalogue, in order.
pub open spec fn catalogue_names() -> Seq<Seq<char>> {
    seq![
        "Tiny · English"@,
        "Tiny · Multilingual"@,
        "Base · English"@,
        "Base · Multilingual"@,
        "Small · English"@,
        "Small · Multilingual"@,
        "Medium · English"@,
        "Medium · Multilingual"@,
    ]
}

/// The descriptions of the catalogue, in order.
pub open spec fn catalogue_descriptions() -> Seq<Seq<char>> {
    seq![
        "~10× real-time. English only. Best for low-power hardware."@,
        "Fastest multilingual model."@,
        "Good balance of speed and accuracy. English only."@,
        "Multilingual base model."@,
        "Better accuracy, ~4× real-time. English only."@,
        "Multilingual small model, ~4× real-time."@,
        "High accuracy, English only. Requires ~4 GB RAM."@,
        "Best multilingual accuracy. Requires ~4 GB RAM."@,
    ]
}

/// The approximate sizes (MB) of the catalogue, in order.
pub open spec fn catalogue_sizes() -> Seq<u32> {
    seq![75u32, 75u32, 142u32, 142u32, 466u32, 466u32, 1_500u32, 1_500u32]
}

/// Where each model is downloaded from.
pub open spec fn model_url(id: Seq<char>) -> Seq<char> {
    "https://huggingface.co/ggerganov/whisper.cpp/resolve/main/ggml-"@ + id + ".bin"@
}

/// The number of catalogue entries.
pub open spec fn catalogue_len() -> nat {
    8
}

/// `e` is catalogue entry `i`.
pub open spec fn is_entry(e: CatalogueEntry, i: int) -> bool {
    &&& e.id@ == catalogue_ids()[i]
    &&& e.name@ == catalogue_names()[i]
    &&& e.description@ == catalogue_descriptions()[i]
    &&& e.size_mb == catalogue_sizes()[i]
    &&& e.url@ == model_url(catalogue_ids()[i])
}

fn entry(
    id: &'static str,
    name: &'static str,
    description: &'static str,
    size_mb: u32,
    url: &'static str,
) -> (e: CatalogueEntry)
    ensures
        e.id == id && e.name == name && e.description == description && e.size_mb == size_mb
            && e.url == url,
{
    CatalogueEntry { id, name, description, size_mb, url }
}

/// The catalogue of downloadable models.
pub fn catalogue() -> (v: Vec<CatalogueEntry>)
    ensures
        v@.len() == catalogue_len(),
        forall|i: int| 0 <= i < catalogue_len() ==> is_entry(#[trigger] v@[i], i),
{
    let mut v: Vec<CatalogueEntry> = Vec::new();
    v.push(
        entry(
            "tiny.en",
            "Tiny · English",
            "~10× real-time. English only. Best for low-power hardware.",
            75,
            "https://huggingface.co/ggerganov/whisper.cpp/resolve/main/ggml-tiny.en.bin",
        ),
    );
    v.push(
        entry(
            "tiny",
            "Tiny · Multilingual",
            "Fastest multilingual model.",
            75,
            "https://huggingface.co/ggerganov/whisper.cpp/resolve/main/ggml-tiny.bin",
        ),
    );
    v.push(
        entry(
            "base.en",
            "Base · English",
            "Good balance of speed and accuracy. English only.",
            142,
            "https://huggingface.co/ggerganov/whisper.cpp/resolve/main/ggml-base.en.bin",
        ),
    );
    v.push(
        entry(
            "base",
            "Base · Multilingual",
            "Multilingual base model.",
            142,
            "https://huggingface.co/ggerganov/whisper.cpp/resolve/main/ggml-base.bin",
        ),
    );
    v.push(
        entry(
            "small.en",
            "Small · English",
            "Better accuracy, ~4× real-time. English only.",
            466,
            "https://huggingface.co/ggerganov/whisper.cpp/resolve/main/ggml-small.en.bin",
        ),
    );
    v.push(
        entry(
            "small",
            "Small · Multilingual",
            "Multilingual small model, ~4× real-time.",
            466,
            "https://huggingface.co/ggerganov/whisper.cpp/resolve/main/ggml-small.bin",
        ),
    );
    v.push(
        entry(
            "medium.en",
            "Medium · English",
            "High accuracy, English only. Requires ~4 GB RAM.",
            1_500,
            "https://huggingface.co/ggerganov/whisper.cpp/resolve/main/ggml-medium.en.bin",
        ),
    );
    v.push(
        entry(
            "medium",
            "Medium · Multilingual",
            "Best multilingual accuracy. Requires ~4 GB RAM.",
            1_500,
            "https://huggingface.co/ggerganov/whisper.cpp/resolve/main/ggml-medium.bin",
        ),
    );
    proof {
        reveal_strlit("https://huggingface.co/ggerganov/whisper.cpp/resolve/main/ggml-");
        reveal_strlit(".bin");
        reveal_strlit("tiny.en");
        reveal_strlit("tiny");
        reveal_strlit("base.en");
        reveal_strlit("base");
        reveal_strlit("small.en");
        reveal_strlit("small");
        reveal_strlit("medium.en");
        reveal_strlit("medium");
        reveal_strlit("https://huggingface.co/ggerganov/whisper.cpp/resolve/main/ggml-tiny.en.bin");
        reveal_strlit("https://huggingface.co/ggerganov/whisper.cpp/resolve/main/ggml-tiny.bin");
        reveal_strlit("https://huggingface.co/ggerganov/whisper.cpp/resolve/main/ggml-base.en.bin");
        reveal_strlit("https://huggingface.co/ggerganov/whisper.cpp/resolve/main/ggml-base.bin");
        reveal_strlit("https://huggingface.co/ggerganov/whisper.cpp/resolve/main/ggml-small.en.bin");
        reveal_strlit("https://huggingface.co/ggerganov/whisper.cpp/resolve/main/ggml-small.bin");
        reveal_strlit(
            "https://huggingface.co/ggerganov/whisper.cpp/resolve/main/ggml-medium.en.bin",
        );
        reveal_strlit("https://huggingface.co/ggerganov/whisper.cpp/resolve/main/ggml-medium.bin");
        assert(v@[0].url@ =~= model_url(catalogue_ids()[0]));
        assert(v@[1].url@ =~= model_url(catalogue_ids()[1]));
        assert(v@[2].url@ =~= model_url(catalogue_ids()[2]));
        assert(v@[3].url@ =~= model_url(catalogue_ids()[3]));
        assert(v@[4].url@ =~= model_url(catalogue_ids()[4]));
        assert(v@[5].url@ =~= model_url(catalogue_ids()[5]));
        assert(v@[6].url@ =~= model_url(catalogue_ids()[6]));
        assert(v@[7].url@ =~= model_url(catalogue_ids()[7]));
    }
    v
}

/// Whether two strings hold the same characters.
pub fn same_text(a: &str, b: &str) -> (eq: bool)
    ensures
        eq == (a@ == b@),
{
    let x = chars_of(a);
    let y = chars_of(b);
    if x.len() != y.len() {
        return false;
    }
    let mut i: usize = 0;
    while i < x.len()
        invariant
            x@ == a@,
            y@ == b@,
            x@.len() == y@.len(),
            i <= x@.len(),
            forall|j: int| 0 <= j < i ==> x@[j] == y@[j],
        decreases x@.len() - i,
    {
        if x[i] != y[i] {
            assert(x@[i as int] != y@[i as int]);
            return false;
        }
        i = i + 1;
    }
    assert(x@ =~= y@);
    true
}

/// The error for an id that is not in the catalogue.
pub open spec fn unknown_model(id: Seq<char>) -> Seq<char> {
    "Unknown model id: '"@ + id + "'"@
}

/// The catalogue entry of the model `id`: the first entry with that id, or
/// an error naming the unknown id.
pub fn find_entry(id: &str) -> (r: Result<CatalogueEntry, String>)
    ensures
        match r {
            Ok(e) => exists|i: int|
                0 <= i < catalogue_len() && is_entry(e, i) && #[trigger] catalogue_ids()[i] == id@
                    && forall|j: int| 0 <= j < i ==> catalogue_ids()[j] != id@,
            Err(m) => m@ == unknown_model(id@) && forall|i: int|
                0 <= i < catalogue_len() ==> #[trigger] catalogue_ids()[i] != id@,
        },
{
    let cat = catalogue();
    let mut i: usize = 0;
    while i < cat.len()
        invariant
            cat@.len() == catalogue_len(),
            forall|k: int| 0 <= k < catalogue_len() ==> is_entry(#[trigger] cat@[k], k),
            i <= cat@.len(),
            forall|j: int| 0 <= j < i ==> catalogue_ids()[j] != id@,
        decreases cat@.len() - i,
    {
        if same_text(cat[i].id, id) {
            assert(is_entry(cat@[i as int], i as int));
            return Ok(cat[i]);
        }
        assert(is_entry(cat@[i as int], i as int));
        i = i + 1;
    }
    let mut m = String::from_str("Unknown model id: '");
    m.append(id);
    m.append("'");
    Err(m)
}

/// The file name of model `id`: `ggml-{id}.bin`.
pub fn model_file_name(id: &str) -> (f: String)
    ensures
        f@ == "ggml-"@ + id@ + ".bin"@,
{
    let mut f = String::from_str("ggml-");
    f.append(id);
    f.append(".bin");
    f
}

/// The file name of the SHA-256 sidecar of model `id`: `ggml-{id}.sha256`.
pub fn hash_file_name(id: &str) -> (f: String)
    ensures
        f@ == "ggml-"@ + id@ + ".sha256"@,
{
    let mut f = String::from_str("ggml-");
    f.append(id);
    f.append(".sha256");
    f
}

/// The views of an optional string.
pub open spec fn opt_view(o: Option<String>) -> Option<Seq<char>> {
    match o {
        Some(s) => Some(s@),
        None => None,
    }
}

/// Catalogue entry `i` annotated with the status `st`: the path is kept
/// only when the model is downloaded, the stored hash is trimmed.
pub open spec fn annotated(m: ModelEntry, i: int, st: ModelStatus) -> bool {
    &&& m.id@ == catalogue_ids()[i]
    &&& m.name@ == catalogue_names()[i]
    &&& m.description@ == catalogue_descriptions()[i]
    &&& m.size_mb == catalogue_sizes()[i]
    &&& m.downloaded == st.downloaded
    &&& opt_view(m.path) == (if st.downloaded {
        Some(st.path@)
    } else {
        None
    })
    &&& opt_view(m.sha256) == match st.stored_hash {
        Some(h) => Some(trim(h@)),
        None => None,
    }
}

/// The catalogue annotated with the download status of each entry;
/// `statuses[i]` is what is on disk for catalogue entry `i`.
pub fn list_models(statuses: &Vec<ModelStatus>) -> (v: Vec<ModelEntry>)
    requires
        statuses@.len() == catalogue_len(),
    ensures
        v@.len() == catalogue_len(),
        forall|i: int| 0 <= i < catalogue_len() ==> annotated(#[trigger] v@[i], i, statuses@[i]),
{
    let cat = catalogue();
    let mut v: Vec<ModelEntry> = Vec::new();
    let mut i: usize = 0;
    while i < cat.len()
        invariant
            cat@.len() == catalogue_len(),
            statuses@.len() == catalogue_len(),
            forall|k: int| 0 <= k < catalogue_len() ==> is_entry(#[trigger] cat@[k], k),
            i <= cat@.len(),
            v@.len() == i,
            forall|k: int| 0 <= k < i ==> annotated(#[trigger] v@[k], k, statuses@[k]),
        decreases cat@.len() - i,
    {
        let e = cat[i];
        let st = &statuses[i];
        let path = if st.downloaded {
            Some(st.path.clone())
        } else {
            None
        };
        let sha256 = match &st.stored_hash {
            Some(h) => {
                let t = trim_chars(chars_of(h.as_str()).as_slice());
                Some(string_of(t.as_slice()))
            },
            None => None,
        };
        assert(is_entry(cat@[i as int], i as int));
        v.push(
            ModelEntry {
                id: e.id,
                name: e.name,
                description: e.description,
                size_mb: e.size_mb,
                downloaded: st.downloaded,
                path,
                sha256,
            },
        );
        i = i + 1;
    }
    v
}

/// The lower-case hexadecimal digit of `n < 16`.
pub open spec fn hex_digit(n: int) -> char {
    if n < 10 {
        (48 + n) as char
    } else {
        (87 + n) as char
    }
}

/// Lower-case hexadecimal of `data`: two digits per byte, high nibble
/// first.
pub open spec fn hex_lower(data: Seq<u8>) -> Seq<char>
    decreases data.len(),
{
    if data.len() == 0 {
        Seq::empty()
    } else {
        hex_lower(data.drop_last()) + seq![
            hex_digit(data.last() as int / 16),
            hex_digit(data.last() as int % 16),
        ]
    }
}

/// `hex::encode`: lower-case hexadecimal, two digits per byte, high nibble
/// first.  The claim is that it returns exactly `hex_lower` of the input.
#[verifier::external_body]
fn hex_encode(data: &[u8]) -> (s: String)
    ensures
        s@ == hex_lower(data@),
{
    hex::encode(data)
}

/// The digest of a download as stored in the sidecar file and reported to
/// the frontend: lower-case hexadecimal.
pub fn digest_hex(digest: &[u8]) -> (s: String)
    ensures
        s@ == hex_lower(digest@),
{
    hex_encode(digest)
}

/// The hexadecimal form has two characters per byte.
pub proof fn lemma_hex_len(data: Seq<u8>)
    ensures
        hex_lower(data).len() == 2 * data.len(),
    decreases data.len(),
{
    if data.len() > 0 {
        lemma_hex_len(data.drop_last());
    }
}

/// The SHA-256 digest of the message `data`.
pub uninterp spec fn sha256(data: Seq<u8>) -> Seq<u8>;

/// An incremental SHA-256 computation (`sha2::Sha256`) over the bytes of a
/// download.
#[verifier::external_body]
pub struct DigestStream {
    hasher: sha2::Sha256,
}

/// The bytes fed to a digest stream so far, in order.
pub uninterp spec fn absorbed(s: DigestStream) -> Seq<u8>;

/// `<sha2::Sha256 as Digest>::new`: a hasher that has absorbed nothing.
#[verifier::external_body]
fn digest_new() -> (s: DigestStream)
    ensures
        absorbed(s) == Seq::<u8>::empty(),
{
    DigestStream { hasher: <sha2::Sha256 as sha2::Digest>::new() }
}

/// `<sha2::Sha256 as Digest>::update`: appends `data` to the message.
#[verifier::external_body]
fn digest_update(s: &mut DigestStream, data: &[u8])
    ensures
        absorbed(*final(s)) == absorbed(*old(s)) + data@,
{
    sha2::Digest::update(&mut s.hasher, data);
}

/// `<sha2::Sha256 as Digest>::finalize`: the 32-byte SHA-256 digest of the
/// whole message.
#[verifier::external_body]
fn digest_finalize(s: DigestStream) -> (d: Vec<u8>)
    ensures
        d@ == sha256(absorbed(s)),
        d@.len() == 32,
{
    sha2::Digest::finalize(s.hasher).to_vec()
}

/// What the shell does after one item of the response stream.
#[derive(Debug)]
pub enum ChunkStep {
    /// The bytes were taken in; write them and report progress.
    Continue,
    /// The download was cancelled: remove the partial file, fail with the
    /// message.
    Cancelled(String),
    /// The stream failed: fail with the message.
    Failed(String),
}

/// An in-flight model download: bytes received so far, their running
/// SHA-256, and the announced total size (0 when unknown).
pub struct Download {
    model_id: String,
    total: u64,
    done: u64,
    digest: DigestStream,
}

impl Download {
    /// The model being downloaded.
    pub closed spec fn model(&self) -> Seq<char> {
        self.model_id@
    }

    /// The announced total size in bytes (0 when unknown).
    pub closed spec fn expected(&self) -> nat {
        self.total as nat
    }

    /// The bytes received so far, in order.
    pub closed spec fn received(&self) -> Seq<u8> {
        absorbed(self.digest)
    }

    /// The byte count matches the bytes received.
    pub closed spec fn wf(&self) -> bool {
        self.done == absorbed(self.digest).len()
    }

    /// Start downloading model `model_id`, `total` bytes announced.
    pub fn start(model_id: &str, total: u64) -> (d: Self)
        ensures
            d.wf(),
            d.model() == model_id@,
            d.expected() == total,
            d.received() == Seq::<u8>::empty(),
    {
        Download { model_id: String::from_str(model_id), total, done: 0, digest: digest_new() }
    }

    /// A chunk of the body arrived.
    pub fn on_chunk(&mut self, bytes: &[u8])
        requires
            old(self).wf(),
            old(self).received().len() + bytes@.len() <= u64::MAX,
        ensures
            final(self).wf(),
            final(self).model() == old(self).model(),
            final(self).expected() == old(self).expected(),
            final(self).received() == old(self).received() + bytes@,
    {
        digest_update(&mut self.digest, bytes);
        self.done = self.done + bytes.len() as u64;
    }

    /// One item of the response stream arrived, `cancelled` telling
    /// whether cancellation was requested.  Cancellation wins over the item;
    /// a stream error fails the download; bytes are taken in.
    pub fn on_stream_item(&mut self, cancelled: bool, item: Result<&[u8], String>) -> (step: ChunkStep)
        requires
            old(self).wf(),
            !cancelled ==> (item matches Ok(bytes) ==> old(self).received().len() + bytes@.len()
                <= u64::MAX),
        ensures
            final(self).wf(),
            final(self).model() == old(self).model(),
            final(self).expected() == old(self).expected(),
            cancelled ==> (step matches ChunkStep::Cancelled(m) && m@ == "Download cancelled"@)
                && final(self).received() == old(self).received(),
            !cancelled ==> match item {
                Ok(bytes) => step is Continue && final(self).received() == old(self).received()
                    + bytes@,
                Err(e) => (step matches ChunkStep::Failed(m) && m@ == "Stream error: "@ + e@)
                    && final(self).received() == old(self).received(),
            },
    {
        if cancelled {
            return ChunkStep::Cancelled(String::from_str("Download cancelled"));
        }
        match item {
            Ok(bytes) => {
                self.on_chunk(bytes);
                ChunkStep::Continue
            },
            Err(e) => {
                let mut m = String::from_str("Stream error: ");
                m.append(e.as_str());
                ChunkStep::Failed(m)
            },
        }
    }

    /// Bytes received so far.
    pub fn bytes_done(&self) -> (n: u64)
        requires
            self.wf(),
        ensures
            n == self.received().len(),
    {
        self.done
    }

    /// The announced total size (0 when unknown).
    pub fn bytes_total(&self) -> (n: u64)
        ensures
            n == self.expected(),
    {
        self.total
    }

    /// The model being downloaded.
    pub fn model_id(&self) -> (id: &str)
        ensures
            id@ == self.model(),
    {
        self.model_id.as_str()
    }

    /// The download completed and was stored at `path`: the payload that
    /// reports it, with the lower-case hexadecimal SHA-256 of every byte
    /// received.
    pub fn finish(self, path: String) -> (p: DonePayload)
        ensures
            p.model_id@ == self.model(),
            p.path@ == path@,
            p.sha256@ == hex_lower(sha256(self.received())),
            p.sha256@.len() == 64,
    {
        let d = digest_finalize(self.digest);
        let sha = digest_hex(d.as_slice());
        proof {
            lemma_hex_len(d@);
        }
        DonePayload { model_id: self.model_id, path, sha256: sha }
    }
}

} // verus!
