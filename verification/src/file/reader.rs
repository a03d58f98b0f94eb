//! The decisions of reading a table's heap files: where a page lies among
//! the 1 GiB segment files, how a bulk read of consecutive pages proceeds,
//! how a batch stream walks the table, and how a row iterator walks the
//! line pointers of consecutive pages. The reads themselves are done by the
//! caller, which hands each outcome back.

use vstd::prelude::*;

use bytes::Bytes;

use crate::file::error::{PgError, Result};
use crate::heap::page::{bytes_contents, page_line_pointers, page_parse_ok, HeapPageData, PAGES_PER_SEGMENT, PAGE_BUFFER_SIZE};
use crate::heap::page_batch::{batch_error_matches, is_batch_of_rows, projection_in_range, rows_batch_problem, spec_batch_rows};
use crate::heap::tuple::{BlockIdData, ItemPointerData};
use crate::types::column_builder::ArrowRecordBatch;
use crate::types::{PgColumn, PgSchema};

verus! {

/// Default number of pages read per batch: 128 pages of 8 KiB, 1 MiB.
pub const DEFAULT_PAGES_PER_BATCH: usize = 128;

// ── Segment files ────────────────────────────────────────────────────────

/// The segment file holding page `page_index` and the page's byte offset
/// in it: tables are split into files of `PAGES_PER_SEGMENT` pages.
pub fn page_location(page_index: usize) -> (r: (usize, usize))
    ensures
        r.0 == page_index / PAGES_PER_SEGMENT,
        r.1 == (page_index % PAGES_PER_SEGMENT) * PAGE_BUFFER_SIZE,
{
    let segment_num = page_index / PAGES_PER_SEGMENT;
    let page_in_segment = page_index % PAGES_PER_SEGMENT;
    (segment_num, page_in_segment * PAGE_BUFFER_SIZE)
}

// ── Bulk reads ───────────────────────────────────────────────────────────

/// One read of a bulk read: `read_bytes` bytes at `offset_in_segment` of
/// segment file `segment`, into the buffer at `buf_offset`.
#[derive(Debug, Clone, Copy, PartialEq, Eq, Structural)]
pub struct ReadRequest {
    pub segment: usize,
    pub offset_in_segment: usize,
    pub read_bytes: usize,
    pub buf_offset: usize,
}

/// The progress of reading `count` consecutive pages from `start_page` on
/// into one buffer, one segment file at a time.
///
/// Each [`next_request`](BulkRead::next_request) asks for the pages left in
/// the current segment (all remaining pages if fewer); the caller reports
/// each read's outcome with [`record_read`](BulkRead::record_read). A
/// failed or empty read, a short read, or a missing segment ends the read.
#[derive(Debug, Clone, Copy)]
pub struct BulkRead {
    start_page: usize,
    page_idx: usize,
    end_page: usize,
    buf_offset: usize,
    done: bool,
}

impl BulkRead {
    /// The next page to read.
    pub closed spec fn spec_page_idx(&self) -> usize {
        self.page_idx
    }

    /// One past the last page to read.
    pub closed spec fn spec_end_page(&self) -> usize {
        self.end_page
    }

    /// Bytes of whole pages read so far.
    pub closed spec fn spec_buf_offset(&self) -> usize {
        self.buf_offset
    }

    /// The read has ended early.
    pub closed spec fn spec_done(&self) -> bool {
        self.done
    }

    /// The bulk-read invariant: the buffer holds exactly the pages from the
    /// start up to `page_idx`.
    pub closed spec fn wf(&self) -> bool {
        &&& self.start_page <= self.page_idx <= self.end_page
        &&& self.buf_offset == (self.page_idx - self.start_page) * PAGE_BUFFER_SIZE
        &&& self.end_page * PAGE_BUFFER_SIZE <= usize::MAX
    }

    /// Start reading `count` pages from `start_page` on; the buffer is
    /// `count * PAGE_BUFFER_SIZE` bytes.
    pub fn new(start_page: usize, count: usize) -> (r: Self)
        requires
            (start_page + count) * PAGE_BUFFER_SIZE <= usize::MAX,
        ensures
            r.wf(),
            r.spec_page_idx() == start_page,
            r.spec_end_page() == start_page + count,
            r.spec_buf_offset() == 0,
            !r.spec_done(),
    {
        BulkRead { start_page, page_idx: start_page, end_page: start_page + count, buf_offset: 0, done: false }
    }

    /// The next read to make, or `None` when the read is over: the pages
    /// from `page_idx` to the end or to the end of its segment, whichever
    /// comes first.
    pub open spec fn spec_next_request(&self) -> Option<ReadRequest> {
        if self.spec_done() || self.spec_page_idx() >= self.spec_end_page() {
            None
        } else {
            let in_seg = self.spec_page_idx() % PAGES_PER_SEGMENT;
            let left = PAGES_PER_SEGMENT - in_seg;
            let want = self.spec_end_page() - self.spec_page_idx();
            Some(
                ReadRequest {
                    segment: (self.spec_page_idx() / PAGES_PER_SEGMENT) as usize,
                    offset_in_segment: (in_seg * PAGE_BUFFER_SIZE) as usize,
                    read_bytes: ((if want < left { want } else { left }) * PAGE_BUFFER_SIZE) as usize,
                    buf_offset: self.spec_buf_offset(),
                },
            )
        }
    }

    /// The next read to make (see [`spec_next_request`](BulkRead::spec_next_request)).
    pub fn next_request(&self) -> (r: Option<ReadRequest>)
        requires
            self.wf(),
        ensures
            r == self.spec_next_request(),
    {
        if self.done || self.page_idx >= self.end_page {
            return None;
        }
        let (segment, offset_in_segment) = page_location(self.page_idx);
        let page_in_segment = self.page_idx % PAGES_PER_SEGMENT;
        let pages_left_in_segment = PAGES_PER_SEGMENT - page_in_segment;
        let want = self.end_page - self.page_idx;
        let pages_to_read = if want < pages_left_in_segment {
            want
        } else {
            pages_left_in_segment
        };
        proof {
            assert(pages_to_read * PAGE_BUFFER_SIZE <= self.end_page * PAGE_BUFFER_SIZE) by (nonlinear_arith)
                requires
                    pages_to_read <= self.end_page,
            ;
        }
        Some(
            ReadRequest {
                segment,
                offset_in_segment,
                read_bytes: pages_to_read * PAGE_BUFFER_SIZE,
                buf_offset: self.buf_offset,
            },
        )
    }

    /// Record the outcome `n` of the read `req` (the byte count it read, or
    /// a negative value for a failure): the whole pages read are kept; a
    /// failed, empty or short read ends the bulk read.
    pub fn record_read(&mut self, req: ReadRequest, n: i64)
        requires
            old(self).wf(),
            old(self).spec_next_request() == Some(req),
            n <= req.read_bytes,
        ensures
            final(self).wf(),
            final(self).spec_end_page() == old(self).spec_end_page(),
            n <= 0 ==> final(self).spec_done() && final(self).spec_page_idx() == old(self).spec_page_idx()
                && final(self).spec_buf_offset() == old(self).spec_buf_offset(),
            n > 0 ==> {
                let pages = n as int / PAGE_BUFFER_SIZE as int;
                &&& final(self).spec_page_idx() == old(self).spec_page_idx() + pages
                &&& final(self).spec_buf_offset() == old(self).spec_buf_offset() + pages * PAGE_BUFFER_SIZE
                &&& final(self).spec_done() == (n < req.read_bytes)
            },
    {
        if n <= 0 {
            self.done = true;
            return;
        }
        let bytes_read = n as usize;
        let pages_read = bytes_read / PAGE_BUFFER_SIZE;
        proof {
            assert(pages_read <= self.end_page - self.page_idx) by (nonlinear_arith)
                requires
                    pages_read == bytes_read / 8192,
                    bytes_read <= req.read_bytes,
                    req.read_bytes <= (self.end_page - self.page_idx) * 8192,
            ;
        }
        self.buf_offset = self.buf_offset + pages_read * PAGE_BUFFER_SIZE;
        self.page_idx = self.page_idx + pages_read;
        if bytes_read < req.read_bytes {
            self.done = true;
        }
    }

    /// Number of whole pages read into the buffer.
    pub fn pages_read(&self) -> (r: usize)
        ensures
            r == self.spec_buf_offset() / PAGE_BUFFER_SIZE,
    {
        self.buf_offset / PAGE_BUFFER_SIZE
    }

    /// Bytes of whole pages read into the buffer.
    pub fn buf_offset(&self) -> (r: usize)
        ensures
            r == self.spec_buf_offset(),
    {
        self.buf_offset
    }
}

/// A bulk read's requests are contiguous: after a read that returned all
/// the bytes it asked for, the next request (if any) starts at the first
/// page of the following segment file and fills the buffer right after the
/// bytes just read; when there is none, every page has been read.
pub proof fn lemma_bulk_read_contiguous(before: BulkRead, req: ReadRequest, after: BulkRead)
    requires
        before.wf(),
        after.wf(),
        before.spec_next_request() == Some(req),
        after.spec_end_page() == before.spec_end_page(),
        after.spec_page_idx() == before.spec_page_idx() + req.read_bytes / PAGE_BUFFER_SIZE,
        after.spec_buf_offset() == before.spec_buf_offset() + req.read_bytes,
        !after.spec_done(),
    ensures
        after.spec_next_request() is None ==> after.spec_page_idx() == after.spec_end_page(),
        after.spec_next_request() matches Some(next) ==> {
            &&& next.segment == req.segment + 1
            &&& next.offset_in_segment == 0
            &&& next.buf_offset == req.buf_offset + req.read_bytes
        },
{
    let p = before.spec_page_idx();
    let in_seg = p % PAGES_PER_SEGMENT;
    let left = PAGES_PER_SEGMENT - in_seg;
    let want = before.spec_end_page() - p;
    let pages = if want < left { want } else { left };
    assert(req.read_bytes == pages * PAGE_BUFFER_SIZE);
    assert((pages * PAGE_BUFFER_SIZE) / PAGE_BUFFER_SIZE as int == pages) by (nonlinear_arith)
        requires
            pages >= 0,
    ;
    if after.spec_next_request() is Some {
        assert(pages == left);
        assert(p + left == (p / PAGES_PER_SEGMENT + 1) * PAGES_PER_SEGMENT) by (nonlinear_arith)
            requires
                in_seg == p % PAGES_PER_SEGMENT,
                left == PAGES_PER_SEGMENT - in_seg,
                p >= 0,
        ;
        assert((p + left) / PAGES_PER_SEGMENT as int == p / PAGES_PER_SEGMENT + 1) by (nonlinear_arith)
            requires
                p + left == (p / PAGES_PER_SEGMENT + 1) * PAGES_PER_SEGMENT,
                p >= 0,
        ;
        assert((p + left) % PAGES_PER_SEGMENT as int == 0) by (nonlinear_arith)
            requires
                p + left == (p / PAGES_PER_SEGMENT + 1) * PAGES_PER_SEGMENT,
                p >= 0,
        ;
    }
}

// ── Batch streams ────────────────────────────────────────────────────────

/// Where a stream of Arrow batches over a table stands: pages are read
/// `pages_per_batch` at a time from `next_page_index` on, up to
/// `max_page_index` (exclusive) if set, until a read comes back short.
#[derive(Debug, Clone, Copy)]
pub struct BatchCursor {
    pub pages_per_batch: usize,
    pub next_page_index: usize,
    pub max_page_index: Option<usize>,
    pub exhausted: bool,
}

/// How many pages the next fill asks for: `pages_per_batch`, capped by
/// what is left before `max_page_index`.
pub open spec fn spec_fill_want(c: BatchCursor) -> int {
    match c.max_page_index {
        Some(max) => {
            let left = if max >= c.next_page_index { max - c.next_page_index } else { 0 };
            if c.pages_per_batch < left { c.pages_per_batch as int } else { left }
        },
        None => c.pages_per_batch as int,
    }
}

impl BatchCursor {
    /// A cursor at the first page, reading `DEFAULT_PAGES_PER_BATCH` pages
    /// at a time, with no end page.
    pub fn new() -> (r: Self)
        ensures
            r.pages_per_batch == DEFAULT_PAGES_PER_BATCH,
            r.next_page_index == 0,
            r.max_page_index is None,
            !r.exhausted,
    {
        BatchCursor {
            pages_per_batch: DEFAULT_PAGES_PER_BATCH,
            next_page_index: 0,
            max_page_index: None,
            exhausted: false,
        }
    }

    /// Read `n` pages per batch (0 means the default).
    pub fn with_pages_per_batch(self, n: usize) -> (r: Self)
        ensures
            r.pages_per_batch == (if n == 0 { DEFAULT_PAGES_PER_BATCH } else { n }),
            r.next_page_index == self.next_page_index,
            r.max_page_index == self.max_page_index,
            r.exhausted == self.exhausted,
    {
        let mut c = self;
        c.pages_per_batch = if n == 0 {
            DEFAULT_PAGES_PER_BATCH
        } else {
            n
        };
        c
    }

    /// Restrict the stream to pages `start..end`.
    pub fn with_page_range(self, start: usize, end: usize) -> (r: Self)
        ensures
            r.pages_per_batch == self.pages_per_batch,
            r.next_page_index == start,
            r.max_page_index == Some(end),
            r.exhausted == self.exhausted,
    {
        let mut c = self;
        c.next_page_index = start;
        c.max_page_index = Some(end);
        c
    }

    /// Start a fill: the number of pages to read, or `None` when the stream
    /// is exhausted (which it becomes when nothing is left to ask for).
    pub fn begin_fill(&mut self) -> (r: Option<usize>)
        ensures
            final(self).pages_per_batch == old(self).pages_per_batch,
            final(self).next_page_index == old(self).next_page_index,
            final(self).max_page_index == old(self).max_page_index,
            old(self).exhausted ==> r is None && final(self).exhausted,
            !old(self).exhausted ==> {
                let want = spec_fill_want(*old(self));
                &&& want == 0 ==> r is None && final(self).exhausted
                &&& want > 0 ==> r == Some(want as usize) && !final(self).exhausted
            },
    {
        if self.exhausted {
            return None;
        }
        let want = match self.max_page_index {
            Some(max) => {
                let left = max.saturating_sub(self.next_page_index);
                if self.pages_per_batch < left {
                    self.pages_per_batch
                } else {
                    left
                }
            },
            None => self.pages_per_batch,
        };
        if want == 0 {
            self.exhausted = true;
            return None;
        }
        Some(want)
    }

    /// Finish a fill that asked for `want` pages and read `pages_read`: an
    /// empty read exhausts the stream; otherwise the cursor moves past the
    /// pages read, and a short read exhausts the stream.
    pub fn finish_fill(&mut self, want: usize, pages_read: usize)
        requires
            pages_read <= want,
            old(self).next_page_index + pages_read <= usize::MAX,
        ensures
            final(self).pages_per_batch == old(self).pages_per_batch,
            final(self).max_page_index == old(self).max_page_index,
            pages_read == 0 ==> final(self).exhausted && final(self).next_page_index == old(self).next_page_index,
            pages_read > 0 ==> final(self).next_page_index == old(self).next_page_index + pages_read
                && final(self).exhausted == (old(self).exhausted || pages_read < want),
    {
        if pages_read == 0 {
            self.exhausted = true;
            return;
        }
        self.next_page_index = self.next_page_index + pages_read;
        if pages_read < want {
            self.exhausted = true;
        }
    }
}

/// A stream restricted to a page range never reads past its end: a fill
/// asks for no more pages than are left before the end page, so the cursor
/// stays within the range after any fill.
pub proof fn lemma_fill_within_range(c: BatchCursor, end: usize, pages_read: int)
    requires
        c.max_page_index == Some(end),
        c.next_page_index <= end,
        0 <= pages_read <= spec_fill_want(c),
    ensures
        0 <= spec_fill_want(c) <= end - c.next_page_index,
        c.next_page_index + pages_read <= end,
{
}

/// The bytes of page `i` of a buffer of consecutive pages.
pub open spec fn page_bytes(bulk: Seq<u8>, i: int) -> Seq<u8> {
    bulk.subrange(i * PAGE_BUFFER_SIZE, (i + 1) * PAGE_BUFFER_SIZE)
}

/// A page converts to a batch without failing: an empty projection, or a
/// conversion that ends in rows whose columns form a batch.
pub open spec fn page_converts(page: Seq<u8>, cols: Seq<PgColumn>, proj: Option<Seq<usize>>) -> bool {
    &&& page_parse_ok(page)
    &&& projection_in_range(proj, cols.len() as int)
    &&& (proj matches Some(p) && p.len() == 0) || (spec_batch_rows(page, page_line_pointers(page), cols, proj, 0) matches Some(
        Ok(rows),
    ) && rows_batch_problem(rows, cols, proj) is None)
}

/// `b` is the batch page `page` converts to.
pub open spec fn is_batch_of_page(b: ArrowRecordBatch, page: Seq<u8>, cols: Seq<PgColumn>, proj: Option<Seq<usize>>) -> bool {
    if proj matches Some(p) && p.len() == 0 {
        b.schema.fields@.len() == 0 && b.columns@.len() == 0
    } else {
        spec_batch_rows(page, page_line_pointers(page), cols, proj, 0) matches Some(Ok(rows)) && is_batch_of_rows(b, rows, cols, proj)
    }
}

/// Converting a page does not panic: the page parses, the projection is
/// in range, and the conversion does not run into what would panic.
pub open spec fn page_conversion_defined(page: Seq<u8>, cols: Seq<PgColumn>, proj: Option<Seq<usize>>) -> bool {
    &&& page_parse_ok(page)
    &&& projection_in_range(proj, cols.len() as int)
    &&& (proj matches Some(p) && p.len() == 0) || spec_batch_rows(page, page_line_pointers(page), cols, proj, 0) is Some
}

/// Converting page `page` fails with the error `e`.
pub open spec fn page_fails_with(page: Seq<u8>, cols: Seq<PgColumn>, proj: Option<Seq<usize>>, e: PgError) -> bool {
    &&& !(proj matches Some(p) && p.len() == 0)
    &&& match spec_batch_rows(page, page_line_pointers(page), cols, proj, 0) {
        Some(Err(k)) => batch_error_matches(e, k),
        Some(Ok(rows)) => rows_batch_problem(rows, cols, proj) is Some && (e matches PgError::ArrowConversionFailed {
            detail,
        } && Some(detail@) == rows_batch_problem(rows, cols, proj)),
        None => false,
    }
}

/// Convert the first `pages_read` pages of a bulk-read buffer, in order,
/// each into its batch. The first page that fails to convert ends the
/// conversion with its error.
pub fn pages_to_batches(bulk: &Bytes, pages_read: usize, schema: &PgSchema, projection: Option<&[usize]>) -> (r: Result<Vec<ArrowRecordBatch>>)
    requires
        pages_read * PAGE_BUFFER_SIZE <= bytes_contents(*bulk).len() <= isize::MAX,
        forall|i: int| 0 <= i < pages_read ==> page_conversion_defined(
            #[trigger] page_bytes(bytes_contents(*bulk), i),
            schema@,
            match projection {
                Some(p) => Some(p@),
                None => None::<Seq<usize>>,
            },
        ),
    ensures
        ({
            let proj = match projection {
                Some(p) => Some(p@),
                None => None::<Seq<usize>>,
            };
            &&& (forall|i: int| 0 <= i < pages_read ==> page_converts(#[trigger] page_bytes(bytes_contents(*bulk), i), schema@, proj))
                ==> r is Ok
            &&& r matches Ok(v) ==> v@.len() == pages_read && forall|i: int| 0 <= i < pages_read ==> is_batch_of_page(
                #[trigger] v@[i],
                page_bytes(bytes_contents(*bulk), i),
                schema@,
                proj,
            )
            &&& r matches Err(e) ==> exists|i: int| {
                &&& 0 <= i < pages_read
                &&& forall|j: int| 0 <= j < i ==> page_converts(#[trigger] page_bytes(bytes_contents(*bulk), j), schema@, proj)
                &&& page_fails_with(page_bytes(bytes_contents(*bulk), i), schema@, proj, e)
            }
        }),
{
    let ghost proj = match projection {
        Some(p) => Some(p@),
        None => None::<Seq<usize>>,
    };
    let mut out: Vec<ArrowRecordBatch> = Vec::with_capacity(pages_read);
    let mut i: usize = 0;
    while i < pages_read
        invariant
            i <= pages_read,
            pages_read * PAGE_BUFFER_SIZE <= bytes_contents(*bulk).len() <= isize::MAX,
            proj == match projection {
                Some(p) => Some(p@),
                None => None::<Seq<usize>>,
            },
            forall|k: int| 0 <= k < pages_read ==> page_conversion_defined(#[trigger] page_bytes(bytes_contents(*bulk), k), schema@, proj),
            out@.len() == i,
            forall|k: int| 0 <= k < i ==> page_converts(#[trigger] page_bytes(bytes_contents(*bulk), k), schema@, proj),
            forall|k: int| 0 <= k < i ==> is_batch_of_page(#[trigger] out@[k], page_bytes(bytes_contents(*bulk), k), schema@, proj),
        decreases pages_read - i,
    {
        proof {
            assert((i + 1) * PAGE_BUFFER_SIZE <= pages_read * PAGE_BUFFER_SIZE) by (nonlinear_arith)
                requires
                    i + 1 <= pages_read,
            ;
        }
        let start = i * PAGE_BUFFER_SIZE;
        let end = start + PAGE_BUFFER_SIZE;
        let page_buf = crate::heap::page::bytes_slice(bulk, start, end);
        let ghost pb = page_bytes(bytes_contents(*bulk), i as int);
        assert(bytes_contents(page_buf) == pb);
        assert(page_conversion_defined(pb, schema@, proj));
        let page = match HeapPageData::parse_bytes(page_buf) {
            Ok(p) => p,
            Err(e) => return Err(e),
        };
        proof {
            assert(page.spec_line_pointers() =~= page_line_pointers(pb));
        }
        let batch = match page.to_record_batch(schema, projection) {
            Ok(b) => b,
            Err(e) => {
                assert(page_fails_with(pb, schema@, proj, e));
                return Err(e);
            },
        };
        assert(page_converts(pb, schema@, proj));
        out.push(batch);
        i = i + 1;
    }
    Ok(out)
}

/// Whether converting the first `pages_read` pages of a bulk-read buffer
/// ([`pages_to_batches`]) is defined: exactly what that conversion
/// requires, so that a caller can test it first.
pub fn pages_conversion_defined(bulk: &Bytes, pages_read: usize, schema: &PgSchema, projection: Option<&[usize]>) -> (r: bool)
    ensures
        r == ({
            let proj = match projection {
                Some(p) => Some(p@),
                None => None::<Seq<usize>>,
            };
            &&& pages_read * PAGE_BUFFER_SIZE <= bytes_contents(*bulk).len() <= isize::MAX
            &&& forall|i: int| 0 <= i < pages_read ==> page_conversion_defined(
                #[trigger] page_bytes(bytes_contents(*bulk), i),
                schema@,
                proj,
            )
        }),
{
    let ghost proj = match projection {
        Some(p) => Some(p@),
        None => None::<Seq<usize>>,
    };
    let len = crate::heap::page::bytes_as_slice(bulk).len();
    if len > isize::MAX as usize {
        return false;
    }
    if pages_read > len / PAGE_BUFFER_SIZE {
        proof {
            assert(pages_read * PAGE_BUFFER_SIZE > len) by (nonlinear_arith)
                requires
                    pages_read > len / PAGE_BUFFER_SIZE,
                    PAGE_BUFFER_SIZE == 8192,
            ;
        }
        return false;
    }
    proof {
        assert(pages_read * PAGE_BUFFER_SIZE <= len) by (nonlinear_arith)
            requires
                pages_read <= len / PAGE_BUFFER_SIZE,
                PAGE_BUFFER_SIZE == 8192,
        ;
    }
    let mut i: usize = 0;
    while i < pages_read
        invariant
            i <= pages_read,
            len == bytes_contents(*bulk).len(),
            pages_read * PAGE_BUFFER_SIZE <= len <= isize::MAX,
            proj == match projection {
                Some(p) => Some(p@),
                None => None::<Seq<usize>>,
            },
            forall|k: int| 0 <= k < i ==> page_conversion_defined(#[trigger] page_bytes(bytes_contents(*bulk), k), schema@, proj),
        decreases pages_read - i,
    {
        proof {
            assert((i + 1) * PAGE_BUFFER_SIZE <= pages_read * PAGE_BUFFER_SIZE) by (nonlinear_arith)
                requires
                    i + 1 <= pages_read,
            ;
        }
        let start = i * PAGE_BUFFER_SIZE;
        let end = start + PAGE_BUFFER_SIZE;
        let page_buf = crate::heap::page::bytes_slice(bulk, start, end);
        let ghost pb = page_bytes(bytes_contents(*bulk), i as int);
        assert(bytes_contents(page_buf) == pb);
        if !HeapPageData::parse_defined(crate::heap::page::bytes_as_slice(&page_buf)) {
            assert(!page_conversion_defined(pb, schema@, proj));
            return false;
        }
        let page = match HeapPageData::parse_bytes(page_buf) {
            Ok(p) => p,
            Err(_) => return false,
        };
        proof {
            assert(page.spec_line_pointers() =~= page_line_pointers(pb));
        }
        if !page.conversion_defined(schema, projection) {
            assert(!page_conversion_defined(pb, schema@, proj));
            return false;
        }
        assert(page_conversion_defined(pb, schema@, proj));
        i = i + 1;
    }
    true
}

// ── Row iteration ────────────────────────────────────────────────────────

/// The position of the row a row iterator has reached.
#[derive(Debug, Clone, Copy)]
pub struct RowInfo {
    /// The row's tid.
    ctid: ItemPointerData,
}

impl RowInfo {
    /// The block number of the row's tid.
    pub closed spec fn spec_block(&self) -> u32 {
        self.ctid.ip_blkid.spec_block_number()
    }

    /// The line pointer index of the row's tid.
    pub closed spec fn spec_posid(&self) -> u16 {
        self.ctid.ip_posid
    }

    /// The row's tid.
    pub closed spec fn spec_ctid(&self) -> ItemPointerData {
        self.ctid
    }

    /// The row's tid.
    pub fn ctid(&self) -> (r: ItemPointerData)
        ensures
            r == self.spec_ctid(),
    {
        self.ctid
    }
}

/// A row iterator's walk over the line pointers of consecutive pages,
/// starting at line pointer 0 of page 0.
///
/// Each step, the caller passes the line pointer count of the page in
/// hand: [`next_page`](PageRowCursor::next_page) says which page to load
/// when the current one is done, [`enter_page`](PageRowCursor::enter_page)
/// moves onto it, and [`advance`](PageRowCursor::advance) gives the next
/// line pointer to read.
#[derive(Debug, Clone, Copy)]
pub struct PageRowCursor {
    current_row_info: Option<RowInfo>,
}

impl PageRowCursor {
    /// The row reached so far, if any.
    pub closed spec fn spec_row(&self) -> Option<RowInfo> {
        self.current_row_info
    }

    /// A cursor before the first row.
    pub fn new() -> (r: Self)
        ensures
            r.spec_row() is None,
    {
        PageRowCursor { current_row_info: None }
    }

    /// The page to load next: the one after the current row's page, once
    /// the row is the page's last line pointer (`lp_num <= posid + 1`).
    pub fn next_page(&self, lp_num: usize) -> (r: Option<u64>)
        ensures
            match self.spec_row() {
                Some(ri) => if lp_num <= ri.spec_posid() + 1 {
                    r == Some((ri.spec_block() + 1) as u64)
                } else {
                    r is None
                },
                None => r is None,
            },
    {
        match &self.current_row_info {
            Some(ri) => {
                if lp_num <= ri.ctid.ip_posid as usize + 1 {
                    Some(ri.ctid.ip_blkid.block_number() as u64 + 1)
                } else {
                    None
                }
            },
            None => None,
        }
    }

    /// Move onto page `block` (after loading it): the row is set to the
    /// page's block with a position just before line pointer 0.
    pub fn enter_page(&mut self, block: u64)
        requires
            old(self).spec_row() is Some,
        ensures
            final(self).spec_row() matches Some(ri) && ri.spec_ctid().ip_blkid.bi_lo == block as u16
                && ri.spec_ctid().ip_blkid.bi_hi == ((block as u32) >> 16u32) as u16 && ri.spec_posid() == u16::MAX,
    {
        self.current_row_info = Some(
            RowInfo {
                ctid: ItemPointerData {
                    ip_blkid: BlockIdData { bi_hi: ((block as u32) >> 16) as u16, bi_lo: block as u16 },
                    ip_posid: u16::MAX,
                },
            },
        );
    }

    /// Move to the next line pointer and return its index: 0 on the first
    /// step, otherwise one past the current (wrapping, so that a position
    /// set by `enter_page` moves to 0).
    pub fn advance(&mut self) -> (r: u16)
        ensures
            final(self).spec_row() matches Some(ri) && ri.spec_posid() == r && match old(self).spec_row() {
                Some(old_ri) => ri.spec_ctid().ip_blkid == old_ri.spec_ctid().ip_blkid && r == (if old_ri.spec_posid()
                    == u16::MAX { 0 } else { old_ri.spec_posid() + 1 }),
                None => r == 0 && ri.spec_ctid().ip_blkid.bi_hi == 0 && ri.spec_ctid().ip_blkid.bi_lo == 0,
            },
    {
        let next = match &self.current_row_info {
            Some(ri) => RowInfo {
                ctid: ItemPointerData { ip_blkid: ri.ctid.ip_blkid, ip_posid: ri.ctid.ip_posid.wrapping_add(1) },
            },
            None => RowInfo {
                ctid: ItemPointerData { ip_blkid: BlockIdData { bi_hi: 0, bi_lo: 0 }, ip_posid: 0 },
            },
        };
        let posid = next.ctid.ip_posid;
        self.current_row_info = Some(next);
        posid
    }
}

} // verus!
