//! Loading remote images: what is remote, through which proxy it is fetched, and
//! what comes of a transfer.

use crate::http_client::{is_error, ErrorView, HttpError, HttpResponse};
use crate::text::{find, lemma_find_from, occurs_at, starts_with, to_chars};
use vstd::prelude::*;

verus! {

/// The proxy that transfers go through; an empty text is none.
pub struct ProxySetting {
    pub url: String,
}

impl ProxySetting {
    /// No proxy.
    pub fn new() -> (r: ProxySetting)
        ensures
            r.url@.len() == 0,
    {
        ProxySetting { url: String::new() }
    }

    /// Sets the proxy.
    pub fn set_proxy(&mut self, proxy: String)
        ensures
            final(self).url@ == proxy@,
    {
        self.url = proxy;
    }

    /// The proxy.
    pub fn get_proxy(&self) -> (r: String)
        ensures
            r@ == self.url@,
    {
        self.url.clone()
    }
}

/// Whether the source of an image is remote.
pub fn is_remote_image_source(source: &str) -> (r: bool)
    ensures
        r == (occurs_at(source@, "http://"@, 0) || occurs_at(source@, "https://"@, 0)),
{
    starts_with(source, "http://") || starts_with(source, "https://")
}

/// A setting of a transfer.
pub enum TransferOption {
    Url(String),
    TimeoutMs(u32),
    ConnectTimeoutMs(u32),
    VerifyPeer(bool),
    VerifyHost(bool),
    /// What comes in is gathered.
    Gather,
    Proxy(String),
}

/// How long a transfer may take.
pub const TIMEOUT_MS: u32 = 10000;

/// Whether a text can be handed to the transfer library: it ends texts with a
/// null character.
pub open spec fn is_passable(s: Seq<char>) -> bool {
    !s.contains('\0')
}

fn passable(s: &str) -> (r: bool)
    ensures
        r == is_passable(s@),
{
    let chars = to_chars(s);
    proof {
        lemma_find_from(s@, '\0', 0);
    }
    match find(&chars, '\0', 0) {
        Some(i) => {
            assert(s@[i as int] == '\0');
            false
        },
        None => true,
    }
}

/// The number by which the transfer library knows a setting.
pub fn option_number(option: &TransferOption) -> (r: i32)
    ensures
        r == (match *option {
            TransferOption::Url(_) => 10002i32,
            TransferOption::TimeoutMs(_) => 155,
            TransferOption::ConnectTimeoutMs(_) => 156,
            TransferOption::VerifyPeer(_) => 64,
            TransferOption::VerifyHost(_) => 81,
            TransferOption::Gather => 20011,
            TransferOption::Proxy(_) => 10004,
        }),
{
    match option {
        TransferOption::Url(_) => 10002,
        TransferOption::TimeoutMs(_) => 155,
        TransferOption::ConnectTimeoutMs(_) => 156,
        TransferOption::VerifyPeer(_) => 64,
        TransferOption::VerifyHost(_) => 81,
        TransferOption::Gather => 20011,
        TransferOption::Proxy(_) => 10004,
    }
}

/// The settings of a transfer from an address, in the order in which they are
/// made; `None` where the address or the proxy cannot be handed over.
pub fn transfer_options(url: &str, proxy: &str) -> (r: Option<Vec<TransferOption>>)
    ensures
        r is Some <==> is_passable(url@) && is_passable(proxy@),
        r matches Some(options) ==> {
            let n = options@.len();
            &&& n == (if proxy@.len() > 0 {
                7int
            } else {
                6
            })
            &&& options@[0] matches TransferOption::Url(u) && u@ == url@
            &&& options@[1] == TransferOption::TimeoutMs(TIMEOUT_MS)
            &&& options@[2] == TransferOption::ConnectTimeoutMs(TIMEOUT_MS)
            &&& options@[3] == TransferOption::VerifyPeer(false)
            &&& options@[4] == TransferOption::VerifyHost(false)
            &&& options@[5] == TransferOption::Gather
            &&& proxy@.len() > 0 ==> (options@[6] matches TransferOption::Proxy(p) && p@ == proxy@)
        },
{
    if !passable(url) || !passable(proxy) {
        return None;
    }
    let mut options: Vec<TransferOption> = Vec::new();
    options.push(TransferOption::Url(url.to_owned()));
    options.push(TransferOption::TimeoutMs(TIMEOUT_MS));
    options.push(TransferOption::ConnectTimeoutMs(TIMEOUT_MS));
    options.push(TransferOption::VerifyPeer(false));
    options.push(TransferOption::VerifyHost(false));
    options.push(TransferOption::Gather);
    if !proxy.is_empty() {
        options.push(TransferOption::Proxy(proxy.to_owned()));
    }
    Some(options)
}

/// Gathers what came in: `nitems` items of `size` bytes each. The result is how
/// many bytes were taken.
pub fn gather(gathered: &mut Vec<u8>, chunk: &[u8], size: usize, nitems: usize) -> (r: usize)
    requires
        size * nitems == chunk@.len(),
        size * nitems <= usize::MAX,
    ensures
        r == size * nitems,
        final(gathered)@ == old(gathered)@ + chunk@,
{
    let mut i: usize = 0;
    while i < chunk.len()
        invariant
            i <= chunk@.len(),
            gathered@ == old(gathered)@ + chunk@.take(i as int),
        decreases chunk@.len() - i,
    {
        gathered.push(chunk[i]);
        i += 1;
        assert(gathered@ =~= old(gathered)@ + chunk@.take(i as int));
    }
    assert(chunk@.take(chunk@.len() as int) =~= chunk@);
    size * nitems
}

/// What came of a transfer: the bytes, where it succeeded and brought any.
pub fn downloaded(result: i32, bytes: Vec<u8>) -> (r: Option<Vec<u8>>)
    ensures
        r is Some <==> result == 0 && bytes@.len() > 0,
        r matches Some(b) ==> b@ == bytes@,
{
    if result == 0 && bytes.len() > 0 {
        Some(bytes)
    } else {
        None
    }
}

/// The response that a transfer from an address becomes.
pub fn response_of(url: &str, bytes: Option<Vec<u8>>) -> (r: Result<HttpResponse, HttpError>)
    ensures
        match bytes {
            Some(b) => r is Ok && r->Ok_0.status == 200 && r->Ok_0.body@ == b@,
            None => is_error(r, ErrorView::DownloadFailed(url@)),
        },
{
    match bytes {
        Some(body) => Ok(HttpResponse { status: 200, body }),
        None => Err(HttpError::DownloadFailed(url.to_owned())),
    }
}

/// A text that holds a null character cannot be handed on, and any other one can.
pub proof fn law_text_with_a_null_is_not_handed_on(a: Seq<char>, b: Seq<char>)
    ensures
        !is_passable(a + seq!['\0'] + b),
        is_passable(a) && is_passable(b) ==> is_passable(a + b),
{
    assert((a + seq!['\0'] + b)[a.len() as int] == '\0');
    if is_passable(a) && is_passable(b) && (a + b).contains('\0') {
        let i = choose|i: int| 0 <= i < (a + b).len() && (a + b)[i] == '\0';
        if i < a.len() {
            assert(a[i] == '\0');
        } else {
            assert(b[i - a.len()] == '\0');
        }
    }
}

} // verus!
