use vstd::prelude::*;
use vstd::string::StringSliceAdditionalSpecFns;

verus! {

#[derive(Clone, Copy, Debug, Eq, PartialEq, Structural)]
pub enum StorageError {
    NotFound,
    InvalidData,
}

#[derive(Clone, Copy, Debug, Eq, PartialEq, Structural)]
pub enum LogLevel {
    Error,
    Warn,
    Info,
    Debug,
}

/// Read access to named files, as the boot path needs it.
///
/// `read_outcome` is what reading `path` into a buffer of `capacity` bytes
/// yields: an error, or the bytes that land at the start of the buffer (no
/// more than it holds).
pub trait StorageReader {
    spec fn read_outcome(&self, path: Seq<u8>, capacity: nat) -> Result<Seq<u8>, StorageError>;

    /// Read the file at `path` into the start of `buffer`; the length read on success.
    fn read(&self, path: &str, buffer: &mut [u8]) -> (r: Result<usize, StorageError>)
        ensures
            final(buffer)@.len() == old(buffer)@.len(),
            match self.read_outcome(path.spec_bytes(), old(buffer)@.len()) {
                Err(e) => r == Err::<usize, StorageError>(e),
                Ok(bytes) => {
                    &&& bytes.len() <= old(buffer)@.len()
                    &&& r == Ok::<usize, StorageError>(bytes.len() as usize)
                    &&& final(buffer)@.subrange(0, bytes.len() as int) == bytes
                },
            },
    ;
}

/// One request the kernel made of its platform.
pub enum SupportCall {
    Sleep(u32),
    FeedWatchdog,
    Log(LogLevel, Seq<char>),
    /// The clock was read and gave this many milliseconds.
    ReadClock(u32),
}

/// Services the kernel needs from the platform: a clock, sleeping, the
/// watchdog and a log. `calls` is every sleep, watchdog feed, log entry and
/// clock reading asked for so far, oldest first, each reading with the value
/// it gave.
pub trait KernelSupport {
    spec fn calls(&self) -> Seq<SupportCall>;

    /// Milliseconds since boot; the reading is recorded with its value.
    fn millis(&mut self) -> (r: u32)
        ensures
            final(self).calls() == old(self).calls().push(SupportCall::ReadClock(r)),
    ;

    fn sleep_ms(&mut self, ms: u32)
        ensures
            final(self).calls() == old(self).calls().push(SupportCall::Sleep(ms)),
    ;

    fn feed_watchdog(&mut self)
        ensures
            final(self).calls() == old(self).calls().push(SupportCall::FeedWatchdog),
    ;

    fn log(&mut self, level: LogLevel, message: &str)
        ensures
            final(self).calls() == old(self).calls().push(SupportCall::Log(level, message@)),
    ;
}

/// `a == b` on byte strings.
pub fn bytes_equal(a: &[u8], b: &[u8]) -> (r: bool)
    ensures
        r == (a@ == b@),
{
    if a.len() != b.len() {
        return false;
    }
    let mut i: usize = 0;
    while i < a.len()
        invariant
            i <= a@.len(),
            a@.len() == b@.len(),
            forall|k: int| 0 <= k < i ==> a@[k] == b@[k],
        decreases a@.len() - i,
    {
        if a[i] != b[i] {
            return false;
        }
        i += 1;
    }
    assert(a@ =~= b@);
    true
}

/// A single in-memory file, for running the kernel on a host.
pub struct HostStorage<'a> {
    path: &'a str,
    data: &'a [u8],
}

impl<'a> HostStorage<'a> {
    pub closed spec fn path_bytes(&self) -> Seq<u8> {
        self.path.spec_bytes()
    }

    pub closed spec fn contents(&self) -> Seq<u8> {
        self.data@
    }

    pub fn new(path: &'a str, data: &'a [u8]) -> (s: Self)
        ensures
            s.path_bytes() == path.spec_bytes(),
            s.contents() == data@,
    {
        Self { path, data }
    }
}

impl StorageReader for HostStorage<'_> {
    /// The stored file, for its own path and a buffer that can hold all of it.
    closed spec fn read_outcome(&self, path: Seq<u8>, capacity: nat) -> Result<Seq<u8>, StorageError> {
        if path == self.path_bytes() && capacity >= self.contents().len() {
            Ok(self.contents())
        } else {
            Err(StorageError::NotFound)
        }
    }

    /// Succeeds only for the stored path and a buffer that can hold the whole file.
    fn read(&self, path: &str, buffer: &mut [u8]) -> (r: Result<usize, StorageError>)
        ensures
            path.spec_bytes() != self.path_bytes() || old(buffer)@.len() < self.contents().len()
                ==> r == Err::<usize, StorageError>(StorageError::NotFound) && final(buffer)@ == old(
                buffer,
            )@,
            path.spec_bytes() == self.path_bytes() && old(buffer)@.len() >= self.contents().len()
                ==> {
                &&& r == Ok::<usize, StorageError>(self.contents().len() as usize)
                &&& final(buffer)@ == self.contents() + old(buffer)@.subrange(
                    self.contents().len() as int,
                    old(buffer)@.len() as int,
                )
            },
    {
        if !bytes_equal(path.as_bytes(), self.path.as_bytes()) || buffer.len() < self.data.len() {
            return Err(StorageError::NotFound);
        }
        let n = self.data.len();
        let mut i: usize = 0;
        while i < n
            invariant
                i <= n == self.data@.len(),
                n <= buffer@.len(),
                buffer@.len() == old(buffer)@.len(),
                forall|k: int| 0 <= k < buffer@.len() ==> #[trigger] buffer@[k] == if k < i {
                    self.data@[k]
                } else {
                    old(buffer)@[k]
                },
            decreases n - i,
        {
            buffer[i] = self.data[i];
            i += 1;
        }
        assert(buffer@ =~= self.data@ + old(buffer)@.subrange(n as int, old(buffer)@.len() as int));
        assert(buffer@.subrange(0, n as int) =~= self.data@);
        Ok(n)
    }
}

/// A fixed clock that records what the kernel asked of it, for running on a host.
pub struct HostSupport {
    now_ms: u32,
    last_sleep_ms: u32,
    watchdog_fed: bool,
    logged: bool,
    record: Ghost<Seq<SupportCall>>,
}

/// What a host support object has recorded.
pub struct HostSupportView {
    pub now_ms: u32,
    pub last_sleep_ms: u32,
    pub watchdog_fed: bool,
    pub logged: bool,
}

impl HostSupport {
    pub closed spec fn view(&self) -> HostSupportView {
        HostSupportView {
            now_ms: self.now_ms,
            last_sleep_ms: self.last_sleep_ms,
            watchdog_fed: self.watchdog_fed,
            logged: self.logged,
        }
    }

    pub fn new(now_ms: u32) -> (s: Self)
        ensures
            s.view() == (HostSupportView {
                now_ms,
                last_sleep_ms: 0,
                watchdog_fed: false,
                logged: false,
            }),
            s.calls() == Seq::<SupportCall>::empty(),
    {
        Self {
            now_ms,
            last_sleep_ms: 0,
            watchdog_fed: false,
            logged: false,
            record: Ghost(Seq::empty()),
        }
    }

    pub fn last_sleep_ms(&self) -> (r: u32)
        ensures
            r == self.view().last_sleep_ms,
    {
        self.last_sleep_ms
    }

    pub fn watchdog_fed(&self) -> (r: bool)
        ensures
            r == self.view().watchdog_fed,
    {
        self.watchdog_fed
    }

    pub fn logged(&self) -> (r: bool)
        ensures
            r == self.view().logged,
    {
        self.logged
    }
}

impl KernelSupport for HostSupport {
    closed spec fn calls(&self) -> Seq<SupportCall> {
        self.record@
    }

    fn millis(&mut self) -> (r: u32)
        ensures
            r == old(self).view().now_ms,
            final(self).view() == old(self).view(),
    {
        self.record = Ghost(self.record@.push(SupportCall::ReadClock(self.now_ms)));
        self.now_ms
    }

    fn sleep_ms(&mut self, ms: u32)
        ensures
            final(self).view() == (HostSupportView { last_sleep_ms: ms, ..old(self).view() }),
    {
        self.last_sleep_ms = ms;
        self.record = Ghost(self.record@.push(SupportCall::Sleep(ms)));
    }

    fn feed_watchdog(&mut self)
        ensures
            final(self).view() == (HostSupportView { watchdog_fed: true, ..old(self).view() }),
    {
        self.watchdog_fed = true;
        self.record = Ghost(self.record@.push(SupportCall::FeedWatchdog));
    }

    fn log(&mut self, level: LogLevel, message: &str)
        ensures
            final(self).view() == (HostSupportView { logged: true, ..old(self).view() }),
    {
        self.logged = true;
        self.record = Ghost(self.record@.push(SupportCall::Log(level, message@)));
    }
}

/// Host storage and host support together.
pub struct HostPlatform<'a> {
    pub storage: HostStorage<'a>,
    pub support: HostSupport,
}

impl<'a> HostPlatform<'a> {
    pub fn new(path: &'a str, data: &'a [u8], now_ms: u32) -> (p: Self)
        ensures
            p.storage.path_bytes() == path.spec_bytes(),
            p.storage.contents() == data@,
            p.support.view() == (HostSupportView {
                now_ms,
                last_sleep_ms: 0,
                watchdog_fed: false,
                logged: false,
            }),
            p.support.calls() == Seq::<SupportCall>::empty(),
    {
        Self { storage: HostStorage::new(path, data), support: HostSupport::new(now_ms) }
    }
}

} // verus!
