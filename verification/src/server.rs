//! What the server answers: routes, responses, the `/events` stream, and how a connection goes on.
//!
//! One response is sent for each connection, except on `/events`, which streams frames until the
//! client leaves. The sockets themselves are handled by the firmware: it reports what happened to
//! a connection and is told what to do next.

use crate::capabilities::Chip;
use crate::capacity;
use crate::fixed::{FixedString, FixedVec};
use crate::http;
use crate::http::HEADER_CAP;
use crate::hwinfo;
use crate::hwinfo::Hardware;
use crate::protocol;
use crate::protocol::PartitionInfo;
use crate::reader;
use crate::reader::Register;
use crate::sampler;
use crate::sampler::{Frame, PinChange};
use crate::text;
use crate::value::PinReading;
use crate::viewer::{GpioViewer, MAX_REGISTERED_PINS};
use vstd::prelude::*;
use vstd::string::*;
use vstd::utf8::*;

pub use crate::viewer::DEFAULT_PORT;

verus! {

/// Capacity of the device address in the index page: a dotted quad takes at most 15 bytes.
pub const IP_STR_CAP: usize = 15;

/// Capacity of the free sketch RAM in the index page, in bytes.
pub const FREE_SKETCH_RAM_CAP: usize = 16;

/// Bytes kept of a request. The request line comes first, so a request that is longer can still
/// be answered.
pub const REQUEST_BUF: usize = 1024;

/// A client that is silent for this long is dropped.
pub const CONNECTION_TIMEOUT_SECS: u64 = 10;

/// Whether a partition has the given fields.
pub open spec fn partition_is(
    partition: PartitionInfo,
    label: Seq<char>,
    ptype: u8,
    subtype: u8,
    address: u32,
    size: u32,
) -> bool {
    &&& partition.label@ == label
    &&& partition.ptype == ptype
    &&& partition.subtype == subtype
    &&& partition.address == address
    &&& partition.size == size
}

/// Whether these are the partitions of the common layout.
pub open spec fn is_default_layout(partitions: Seq<PartitionInfo>) -> bool {
    &&& partitions.len() == 3
    &&& partition_is(partitions[0], "nvs"@, 1, 2, 0x9000, 0x5000)
    &&& partition_is(partitions[1], "otadata"@, 1, 0, 0xE000, 0x2000)
    &&& partition_is(partitions[2], "app0"@, 0, 16, 0x10000, 0x140000)
}

/// A common partition layout, for a firmware that does not read its own.
pub fn default_partitions() -> (r: &'static [PartitionInfo<'static>])
    ensures
        is_default_layout(r@),
{
    &[
        PartitionInfo { label: "nvs", ptype: 1, subtype: 2, address: 0x9000, size: 0x5000 },
        PartitionInfo { label: "otadata", ptype: 1, subtype: 0, address: 0xE000, size: 0x2000 },
        PartitionInfo { label: "app0", ptype: 0, subtype: 16, address: 0x10000, size: 0x140000 },
    ]
}

/// What the server knows, shared by all connections.
#[verifier::reject_recursive_types(E)]
#[verifier::reject_recursive_types(H)]
#[verifier::reject_recursive_types(P)]
#[verifier::reject_recursive_types(A)]
pub struct ServerState<'a, E, H = fn() -> u32, P = fn() -> u32, A = crate::viewer::AnalogSource> {
    /// The configured viewer.
    pub viewer: &'a GpioViewer<H, P, A>,
    /// The address of the device, for the index page.
    pub ip: FixedString<IP_STR_CAP>,
    /// The free sketch RAM as text, for the index page.
    pub free_sketch_ram: FixedString<FREE_SKETCH_RAM_CAP>,
    /// The channel on which the sampler sends its frames.
    pub events: &'a E,
    /// The flash partitions, for `/partition`.
    pub partitions: &'a [PartitionInfo<'a>],
}

impl<'a, E, H, P, A> ServerState<'a, E, H, P, A> {
    /// Put the state together. The two texts are truncated to their capacities.
    pub fn new(
        viewer: &'a GpioViewer<H, P, A>,
        ip: &str,
        free_sketch_ram: &str,
        events: &'a E,
        partitions: &'a [PartitionInfo<'a>],
    ) -> (r: Self)
        ensures
            r.viewer == viewer,
            r.ip@ == text::clip(ip@, IP_STR_CAP as nat),
            r.free_sketch_ram@ == text::clip(free_sketch_ram@, FREE_SKETCH_RAM_CAP as nat),
            r.events == events,
            r.partitions == partitions,
    {
        ServerState {
            viewer,
            ip: FixedString::clipped(ip),
            free_sketch_ram: FixedString::clipped(free_sketch_ram),
            events,
            partitions,
        }
    }
}

/// What a request asks for.
#[derive(Debug, Clone, Copy, PartialEq, Eq, Structural)]
pub enum Route {
    /// `/`
    Index,
    /// `/release`
    Release,
    /// `/sampling`
    Sampling,
    /// `/free_psram`
    FreePsram,
    /// `/pinmodes`
    PinModes,
    /// `/pinfunctions`
    PinFunctions,
    /// `/espinfo`
    EspInfo,
    /// `/partition`
    Partition,
    /// `/events`
    Events,
    /// Anything else.
    NotFound,
}

/// What a path asks for.
pub open spec fn path_route(path: Option<Seq<char>>) -> Route {
    match path {
        None => Route::NotFound,
        Some(path) => if path == "/"@ {
            Route::Index
        } else if path == "/release"@ {
            Route::Release
        } else if path == "/sampling"@ {
            Route::Sampling
        } else if path == "/free_psram"@ {
            Route::FreePsram
        } else if path == "/pinmodes"@ {
            Route::PinModes
        } else if path == "/pinfunctions"@ {
            Route::PinFunctions
        } else if path == "/espinfo"@ {
            Route::EspInfo
        } else if path == "/partition"@ {
            Route::Partition
        } else if path == "/events"@ {
            Route::Events
        } else {
            Route::NotFound
        },
    }
}

/// The text of a request, which has to be UTF-8.
///
/// A request whose headers do not fit into the buffer may be cut within a character. Such a
/// character is dropped, if the request line is there in full and the end of the headers is not.
pub open spec fn request_text(request: Seq<u8>) -> Option<Seq<char>> {
    let whole = text::without_unfinished(request);
    if valid_utf8(request) {
        Some(decode_utf8(request))
    } else if valid_utf8(whole) && http::has_whole_line(decode_utf8(whole)) && !contains_part(
        request,
        HEAD_END@,
    ) {
        Some(decode_utf8(whole))
    } else {
        None
    }
}

/// What a request asks for. A request that is not UTF-8 is malformed.
pub open spec fn request_route(request: Seq<u8>) -> Route {
    match request_text(request) {
        Some(request) => path_route(http::request_path(request)),
        None => Route::NotFound,
    }
}

/// What a path asks for.
pub fn route_of(path: Option<&str>) -> (r: Route)
    ensures
        path is None ==> r == Route::NotFound,
        path matches Some(path) ==> r == path_route(Some(path@)),
{
    match path {
        None => Route::NotFound,
        Some(path) => {
            if text::same_text(path, "/") {
                Route::Index
            } else if text::same_text(path, "/release") {
                Route::Release
            } else if text::same_text(path, "/sampling") {
                Route::Sampling
            } else if text::same_text(path, "/free_psram") {
                Route::FreePsram
            } else if text::same_text(path, "/pinmodes") {
                Route::PinModes
            } else if text::same_text(path, "/pinfunctions") {
                Route::PinFunctions
            } else if text::same_text(path, "/espinfo") {
                Route::EspInfo
            } else if text::same_text(path, "/partition") {
                Route::Partition
            } else if text::same_text(path, "/events") {
                Route::Events
            } else {
                Route::NotFound
            }
        },
    }
}

/// Calls `core::str::from_utf8`: bytes that are valid UTF-8 are handed back as the text that they
/// encode, and no others are.
#[verifier::external_body]
fn core_from_utf8(bytes: &[u8]) -> (r: Option<&str>)
    ensures
        r is Some <==> valid_utf8(bytes@),
        r matches Some(decoded) ==> decoded@ == decode_utf8(bytes@),
{
    core::str::from_utf8(bytes).ok()
}

/// The text of a request, which has to be UTF-8, but for a last character that was cut off with
/// the rest of the headers.
fn text_of(request: &[u8]) -> (r: Option<&str>)
    ensures
        r is Some <==> request_text(request@) is Some,
        r matches Some(decoded) ==> Some(decoded@) == request_text(request@),
{
    match core_from_utf8(request) {
        Some(decoded) => Some(decoded),
        None => match core_from_utf8(text::drop_unfinished(request)) {
            Some(decoded) => {
                if http::line_is_whole(decoded) && !contains_subslice(request, &HEAD_END) {
                    Some(decoded)
                } else {
                    None
                }
            },
            None => None,
        },
    }
}

/// What a request asks for.
pub fn route_request(request: &[u8]) -> (r: Route)
    ensures
        r == request_route(request@),
{
    match text_of(request) {
        Some(request) => route_of(http::parse_request_target(request)),
        None => Route::NotFound,
    }
}

/// Whether a request succeeded.
#[derive(Debug, Clone, Copy, PartialEq, Eq, Structural)]
pub enum Status {
    /// `200 OK`
    Success,
    /// `404 Not Found`
    NotFound,
}

impl Status {
    /// The code with its reason phrase.
    pub open spec fn spec_text(self) -> Seq<char> {
        match self {
            Status::Success => "200 OK"@,
            Status::NotFound => "404 Not Found"@,
        }
    }

    /// The code with its reason phrase.
    pub fn text(self) -> (r: &'static str)
        ensures
            r@ == self.spec_text(),
    {
        match self {
            Status::Success => "200 OK",
            Status::NotFound => "404 Not Found",
        }
    }
}

/// The type of a body.
#[derive(Debug, Clone, Copy, PartialEq, Eq, Structural)]
pub enum ContentType {
    /// `text/html`
    Html,
    /// `application/json`
    Json,
    /// `text/plain`
    Plain,
}

impl ContentType {
    /// The media type.
    pub open spec fn spec_text(self) -> Seq<char> {
        match self {
            ContentType::Html => "text/html"@,
            ContentType::Json => "application/json"@,
            ContentType::Plain => "text/plain"@,
        }
    }

    /// The media type.
    pub fn text(self) -> (r: &'static str)
        ensures
            r@ == self.spec_text(),
    {
        match self {
            ContentType::Html => "text/html",
            ContentType::Json => "application/json",
            ContentType::Plain => "text/plain",
        }
    }
}

/// The body of a response, in a buffer of the size that it needs.
pub enum Body {
    /// A text known beforehand.
    Fixed(&'static str),
    /// A short JSON value.
    Short(FixedString<64>),
    /// The index page.
    Page(FixedString<1024>),
    /// A long JSON value.
    Long(FixedString<2048>),
}

impl View for Body {
    type V = Seq<char>;

    open spec fn view(&self) -> Seq<char> {
        match self {
            Body::Fixed(body) => body@,
            Body::Short(body) => body@,
            Body::Page(body) => body@,
            Body::Long(body) => body@,
        }
    }
}

impl Body {
    /// The text of the body.
    pub fn as_str(&self) -> (r: &str)
        ensures
            r@ == self@,
    {
        match self {
            Body::Fixed(body) => body,
            Body::Short(body) => body.as_str(),
            Body::Page(body) => body.as_str(),
            Body::Long(body) => body.as_str(),
        }
    }
}

/// The answer to a request.
pub struct Response {
    /// Whether the request succeeded.
    pub status: Status,
    /// The type of the body.
    pub content_type: ContentType,
    /// The body.
    pub body: Body,
}

impl Response {
    /// Whether this is a successful response with the given body.
    pub open spec fn is_ok(&self, content_type: ContentType, body: Seq<char>) -> bool {
        &&& self.status == Status::Success
        &&& self.content_type == content_type
        &&& self.body@ == body
    }

    /// Whether this is the response to a request that asks for nothing known.
    pub open spec fn is_not_found(&self) -> bool {
        &&& self.status == Status::NotFound
        &&& self.content_type == ContentType::Plain
        &&& self.body@ == "Not Found"@
    }

    /// A successful response.
    fn ok(content_type: ContentType, body: Body) -> (r: Self)
        ensures
            r.is_ok(content_type, body@),
    {
        Response { status: Status::Success, content_type, body }
    }

    /// A successful response with a short JSON value.
    fn short(body: FixedString<64>) -> (r: Self)
        ensures
            r.is_ok(ContentType::Json, body@),
            text::utf8_len(r.body@) <= 64,
    {
        // What a buffer holds fits into it.
        let _held = body.as_str();
        Response::ok(ContentType::Json, Body::Short(body))
    }

    /// A successful response with a long JSON value.
    fn long(body: FixedString<2048>) -> (r: Self)
        ensures
            r.is_ok(ContentType::Json, body@),
            text::utf8_len(r.body@) <= 2048,
    {
        // What a buffer holds fits into it.
        let _held = body.as_str();
        Response::ok(ContentType::Json, Body::Long(body))
    }

    /// The response to a request that asks for nothing known.
    fn not_found() -> (r: Self)
        ensures
            r.is_not_found(),
    {
        Response {
            status: Status::NotFound,
            content_type: ContentType::Plain,
            body: Body::Fixed("Not Found"),
        }
    }

    /// The status line and headers, to be sent in front of the body. They give the length of the
    /// body in bytes.
    pub fn header(&self) -> (r: FixedString<HEADER_CAP>)
        requires
            text::utf8_len(self.body@) <= usize::MAX,
        ensures
            r@ == http::response_header_text(
                self.status.spec_text(),
                self.content_type.spec_text(),
                text::utf8_len(self.body@),
            ),
    {
        let length: usize = self.body.as_str().len();
        proof {
            lemma_header_fits(self.status, self.content_type, length);
        }
        http::response_header(self.status.text(), self.content_type.text(), length)
    }
}

/// The header of a response is always complete.
proof fn lemma_header_fits(status: Status, content_type: ContentType, length: usize)
    ensures
        http::response_header_within(
            status.spec_text(),
            content_type.spec_text(),
            length as nat,
        ) == http::response_header_text(
            status.spec_text(),
            content_type.spec_text(),
            length as nat,
        ),
{
    reveal_strlit("200 OK");
    reveal_strlit("404 Not Found");
    reveal_strlit("text/html");
    reveal_strlit("application/json");
    reveal_strlit("text/plain");
    text::lemma_utf8_len_ascii(status.spec_text());
    text::lemma_utf8_len_ascii(content_type.spec_text());
    http::response_header_fits(status.spec_text(), content_type.spec_text(), length);
}

/// Whether `response` answers a request for `route`, given what the firmware reports. Only
/// `/espinfo` and `/free_psram` depend on that report. Every body is complete, but for a partition
/// table of more than 2048 bytes.
///
/// `/events` has no such answer: it is a stream.
pub open spec fn answers<E, H, P, A>(
    response: Response,
    route: Route,
    state: ServerState<E, H, P, A>,
    chip: Chip,
    hardware: Hardware,
    free_heap: u32,
    free_psram: Option<u32>,
) -> bool {
    let viewer = state.viewer;
    match route {
        Route::Index => response.is_ok(
            ContentType::Html,
            protocol::index_page(state.ip@, viewer.port as nat, state.free_sketch_ram@),
        ),
        Route::Release => response.is_ok(
            ContentType::Json,
            protocol::release_text(viewer.release@),
        ),
        Route::Sampling => response.is_ok(
            ContentType::Json,
            protocol::sampling_text(viewer.sampling_interval_ms as nat),
        ),
        Route::FreePsram => response.is_ok(
            ContentType::Json,
            protocol::free_psram_text(
                viewer.sampling_interval_ms as nat,
                free_psram,
                protocol::FREE_PSRAM_REPRO_BUG,
            ),
        ),
        Route::PinModes => response.is_ok(
            ContentType::Json,
            protocol::pinmodes_text(crate::viewer::pinmode_pairs_of(viewer.pins@)),
        ),
        Route::PinFunctions => response.is_ok(
            ContentType::Json,
            protocol::pinfunctions_text(chip.spec_adc_pins(), chip.spec_touch_pins()),
        ),
        Route::EspInfo => exists|info: protocol::EspInfo|
            {
                &&& #[trigger] hwinfo::informs_on(info, chip, hardware, free_heap, free_psram)
                &&& response.is_ok(ContentType::Json, protocol::espinfo_text(info))
            },
        Route::Partition => response.is_ok(
            ContentType::Json,
            text::clip(protocol::partition_text(state.partitions@), 2048),
        ),
        Route::Events | Route::NotFound => response.is_not_found(),
    }
}

/// The answer to a request for a route, given what the firmware reports.
pub fn respond<E, H, P, A>(
    route: Route,
    state: &ServerState<E, H, P, A>,
    chip: Chip,
    hardware: Hardware,
    free_heap: u32,
    free_psram: Option<u32>,
) -> (r: Response)
    ensures
        answers(r, route, *state, chip, hardware, free_heap, free_psram),
        text::utf8_len(r.body@) <= 2048,
{
    proof {
        reveal_strlit("Not Found");
        text::lemma_utf8_len_ascii("Not Found"@);
    }
    let viewer = state.viewer;
    match route {
        Route::Index => {
            let ip = state.ip.as_str();
            let free_sketch_ram = state.free_sketch_ram.as_str();
            proof {
                capacity::index_page_fits(ip@, viewer.port, free_sketch_ram@);
            }
            let body = protocol::index_html(ip, viewer.port, free_sketch_ram);
            Response::ok(ContentType::Html, Body::Page(body))
        },
        Route::Release => {
            let release = viewer.release.as_str();
            proof {
                capacity::release_fits(release@);
            }
            Response::short(protocol::release_body(release))
        },
        Route::Sampling => Response::short(protocol::sampling_body(viewer.sampling_interval_ms)),
        Route::FreePsram => Response::short(
            protocol::free_psram_body(viewer.sampling_interval_ms, free_psram),
        ),
        Route::PinModes => {
            let pairs = viewer.pinmode_pairs();
            // There are no more pairs than the registry has room for.
            let _count: usize = pairs.len();
            proof {
                capacity::pinmodes_fit(viewer.pins@);
            }
            Response::long(protocol::pinmodes_body(pairs.as_slice()))
        },
        Route::PinFunctions => {
            proof {
                capacity::pinfunctions_fit(chip);
            }
            Response::long(protocol::pinfunctions_body(chip.adc_pins(), chip.touch_pins()))
        },
        Route::EspInfo => {
            let info = hwinfo::espinfo_of(chip, hardware, free_heap, free_psram);
            proof {
                capacity::espinfo_fits(info, chip, hardware, free_heap, free_psram);
            }
            Response::long(protocol::espinfo_body(&info))
        },
        Route::Partition => Response::long(protocol::partition_body(state.partitions)),
        Route::Events | Route::NotFound => Response::not_found(),
    }
}

/// Whether the sources that a route needs can be asked.
pub open spec fn can_be_served<M: Fn() -> Hardware, H: Fn() -> u32, P: Fn() -> u32, A>(
    route: Route,
    viewer: GpioViewer<H, P, A>,
    read_hardware: M,
) -> bool {
    &&& route == Route::EspInfo ==> {
        &&& call_requires(read_hardware, ())
        &&& viewer.free_heap_source matches Some(read_heap) ==> call_requires(read_heap, ())
    }
    &&& route == Route::EspInfo || route == Route::FreePsram ==> (
    viewer.free_psram_source matches Some(read_psram) ==> call_requires(read_psram, ()))
}

/// Whether the report holds, for a route, what the sources that it needs say now.
pub open spec fn is_report<M: Fn() -> Hardware, H: Fn() -> u32, P: Fn() -> u32, A>(
    route: Route,
    viewer: GpioViewer<H, P, A>,
    read_hardware: M,
    hardware: Hardware,
    free_heap: u32,
    free_psram: Option<u32>,
) -> bool {
    &&& route == Route::EspInfo ==> {
        &&& call_ensures(read_hardware, (), hardware)
        &&& sampler::heap_reads_as(viewer.free_heap_source, free_heap)
    }
    &&& route == Route::EspInfo || route == Route::FreePsram ==> sampler::psram_reads_as(
        viewer.free_psram_source,
        free_psram,
    )
}

/// Answer a request for a route: ask the sources that it needs, and no others, and put the
/// response together.
pub fn serve_rest<M: Fn() -> Hardware, E, H: Fn() -> u32 + Copy, P: Fn() -> u32 + Copy, A>(
    route: Route,
    state: &ServerState<E, H, P, A>,
    chip: Chip,
    read_hardware: &M,
) -> (r: Response)
    requires
        can_be_served(route, *state.viewer, *read_hardware),
    ensures
        exists|hardware: Hardware, free_heap: u32, free_psram: Option<u32>|
            {
                &&& #[trigger] is_report(
                    route,
                    *state.viewer,
                    *read_hardware,
                    hardware,
                    free_heap,
                    free_psram,
                )
                &&& answers(r, route, *state, chip, hardware, free_heap, free_psram)
            },
        text::utf8_len(r.body@) <= 2048,
{
    let viewer = state.viewer;
    let mut hardware = Hardware::unknown();
    let mut free_heap: u32 = 0;
    let mut free_psram: Option<u32> = None;
    match route {
        Route::EspInfo => {
            free_heap = sampler::resolve_free_heap(viewer.free_heap_source);
            free_psram = sampler::resolve_free_psram(viewer.free_psram_source);
            hardware = read_hardware();
        },
        Route::FreePsram => {
            free_psram = sampler::resolve_free_psram(viewer.free_psram_source);
        },
        _ => {},
    }
    assert(is_report(route, *viewer, *read_hardware, hardware, free_heap, free_psram));
    respond(route, state, chip, hardware, free_heap, free_psram)
}

/// What an `/events` stream begins with.
pub const SSE_HEADERS: &'static str =
    "HTTP/1.1 200 OK\r\nContent-Type: text/event-stream\r\nCache-Control: no-cache\r\nConnection: keep-alive\r\n\r\n";

/// One server-sent event.
pub open spec fn sse_event_text(name: Seq<char>, data: Seq<char>) -> Seq<char> {
    "event: "@ + name + "\ndata: "@ + data + "\n\n"@
}

/// The pieces of which a server-sent event consists, to be sent one after the other.
pub fn sse_event<'a>(name: &'a str, data: &'a str) -> (r: [&'a str; 5])
    ensures
        r@[0]@ + r@[1]@ + r@[2]@ + r@[3]@ + r@[4]@ == sse_event_text(name@, data@),
{
    ["event: ", name, "\ndata: ", data, "\n\n"]
}

/// The pieces of the server-sent event for a frame.
pub fn frame_event(frame: &Frame) -> (r: [&str; 5])
    ensures
        r@[0]@ + r@[1]@ + r@[2]@ + r@[3]@ + r@[4]@ == sse_event_text(
            frame.spec_event(),
            frame.spec_data(),
        ),
{
    sse_event(frame.event(), frame.data())
}

/// What is sent about every pin when a client connects, whether it has changed or not.
pub open spec fn baseline_of(
    pins: Seq<crate::pin::RegisteredPin>,
    readings: Seq<PinReading>,
) -> Seq<PinChange> {
    Seq::new(pins.len(), |i: int| sampler::change_of(pins[i], readings[i]))
}

/// The first frame of an `/events` stream: the state of every registered pin.
pub fn baseline_frame<R: Fn(Register) -> u32, H, P, A: Fn(u8) -> u16>(
    viewer: &GpioViewer<H, P, A>,
    chip: Chip,
    read_register: &R,
) -> (r: Frame)
    requires
        sampler::sources_accept(chip, viewer.pins@, *read_register, viewer.analog_source),
    ensures
        r is GpioState,
        exists|readings: Seq<PinReading>|
            {
                &&& readings.len() == viewer.pins@.len()
                &&& forall|i: int|
                    0 <= i < readings.len() ==> reader::shows(
                        chip,
                        viewer.pins@[i],
                        *read_register,
                        viewer.analog_source,
                        #[trigger] readings[i],
                    )
                &&& r.spec_data() == text::clip(
                    protocol::gpio_state_text(#[trigger] baseline_of(viewer.pins@, readings)),
                    sampler::GPIO_STATE_CAP as nat,
                )
            },
{
    let pins = viewer.pins.as_slice();
    let mut readings = FixedVec::new();
    sampler::read_all_of(chip, pins, read_register, &viewer.analog_source, &mut readings);
    let readings = readings.as_slice();
    let mut baseline: FixedVec<PinChange, MAX_REGISTERED_PINS> = FixedVec::new();
    for index in 0..pins.len()
        invariant
            pins@.len() <= MAX_REGISTERED_PINS,
            readings@.len() == pins@.len(),
            baseline@ == baseline_of(pins@, readings@).take(index as int),
    {
        let reading = readings[index];
        let _ = baseline.push(
            (pins[index].pin, reading.scaled, reading.raw, reading.pin_type.to_int()),
        );
        assert(baseline@ =~= baseline_of(pins@, readings@).take(index + 1));
    }
    assert(baseline@ =~= baseline_of(pins@, readings@));
    Frame::GpioState(protocol::gpio_state_body(baseline.as_slice()))
}

/// Whether `part` stands somewhere in `whole`.
pub open spec fn contains_part(whole: Seq<u8>, part: Seq<u8>) -> bool {
    exists|start: int|
        0 <= start <= whole.len() - part.len() && #[trigger] whole.subrange(
            start,
            start + part.len(),
        ) == part
}

/// Whether `needle`, which must not be empty, stands somewhere in `haystack`.
pub fn contains_subslice(haystack: &[u8], needle: &[u8]) -> (r: bool)
    ensures
        r == (needle@.len() > 0 && contains_part(haystack@, needle@)),
{
    if needle.len() == 0 || haystack.len() < needle.len() {
        return false;
    }
    let total: usize = haystack.len();
    let last: usize = total - needle.len();
    let mut start: usize = 0;
    while start <= last
        invariant
            needle@.len() > 0,
            total == haystack@.len(),
            last == total - needle@.len(),
            start <= last + 1,
            forall|i: int|
                0 <= i < start ==> #[trigger] haystack@.subrange(i, i + needle@.len()) != needle@,
        decreases last + 1 - start,
    {
        let mut matched: usize = 0;
        while matched < needle.len() && haystack[start + matched] == needle[matched]
            invariant
                matched <= needle@.len(),
                start <= last,
                total == haystack@.len(),
                last == total - needle@.len(),
                forall|i: int| 0 <= i < matched ==> haystack@[start + i] == needle@[i],
            decreases needle@.len() - matched,
        {
            matched = matched + 1;
        }
        let ghost window = haystack@.subrange(start as int, start + needle@.len());
        if matched == needle.len() {
            assert(window =~= needle@);
            return true;
        }
        assert(window[matched as int] != needle@[matched as int]);
        start = start + 1;
    }
    false
}

/// What marks the end of the request headers.
pub const HEAD_END: [u8; 4] = [13, 10, 13, 10];

/// How reading a request goes on.
#[derive(Debug, Clone, Copy, PartialEq, Eq, Structural)]
pub enum HeadStep {
    /// Read on behind so many bytes.
    More(usize),
    /// So many bytes are the request.
    Complete(usize),
    /// There is no request.
    Failed,
}

/// How reading a request goes on after one more read: `buffer` holds the bytes read until now
/// behind each other, `filled` of them from earlier reads.
///
/// The request is complete with the end of its headers, or with a full buffer, or when the client
/// sends no more. It fails on an error, or when the client sends nothing at all.
pub open spec fn head_step(buffer: Seq<u8>, filled: nat, read: Result<usize, ()>) -> HeadStep {
    match read {
        Err(_) => HeadStep::Failed,
        Ok(count) => {
            let total = filled + count;
            if count == 0 {
                if filled > 0 {
                    HeadStep::Complete(filled as usize)
                } else {
                    HeadStep::Failed
                }
            } else if contains_part(buffer.take(total as int), HEAD_END@) || total
                == buffer.len() {
                HeadStep::Complete(total as usize)
            } else {
                HeadStep::More(total as usize)
            }
        },
    }
}

/// How reading a request goes on after one more read.
///
/// `buffer` is the whole request buffer, of which the first `filled` bytes are from earlier
/// reads. `read` is the number of bytes that were read behind them, or the error.
pub fn after_read(buffer: &[u8], filled: usize, read: Result<usize, ()>) -> (r: HeadStep)
    requires
        filled < buffer@.len(),
        read matches Ok(count) ==> filled + count <= buffer@.len(),
    ensures
        r == head_step(buffer@, filled as nat, read),
{
    let capacity: usize = buffer.len();
    match read {
        Err(_) => HeadStep::Failed,
        Ok(count) => {
            if count == 0 {
                if filled > 0 {
                    HeadStep::Complete(filled)
                } else {
                    HeadStep::Failed
                }
            } else {
                let total: usize = filled + count;
                let head = vstd::slice::slice_subrange(buffer, 0, total);
                assert(head@ =~= buffer@.take(total as int));
                if contains_subslice(head, &HEAD_END) || total == capacity {
                    HeadStep::Complete(total)
                } else {
                    HeadStep::More(total)
                }
            }
        },
    }
}

/// What has happened to a connection.
#[derive(Debug, Clone, Copy, PartialEq, Eq, Structural)]
pub enum ConnectionEvent {
    /// A client was accepted.
    Accepted,
    /// No client could be accepted.
    AcceptFailed,
    /// The socket was reset.
    Aborted,
    /// The request was answered, or the client is gone.
    Served,
    /// The sending side was closed.
    Closed,
    /// So many more bytes of the client were read and dropped.
    Drained(usize),
    /// Nothing more can be read.
    DrainFailed,
}

/// What is to be done with a connection.
#[derive(Debug, Clone, Copy, PartialEq, Eq, Structural)]
pub enum ConnectionAction {
    /// Open a new socket and wait for a client.
    Accept,
    /// Reset the socket.
    Abort,
    /// Answer the request.
    Serve,
    /// Close the sending side.
    Close,
    /// Read and drop what the client still sends.
    Drain,
}

/// What is done next with a connection.
///
/// After an answer, what the client still sends is read until it closes its side too, so that
/// the end of the response is not lost in a reset.
pub open spec fn next_of(event: ConnectionEvent) -> ConnectionAction {
    match event {
        ConnectionEvent::Accepted => ConnectionAction::Serve,
        ConnectionEvent::AcceptFailed => ConnectionAction::Abort,
        ConnectionEvent::Served => ConnectionAction::Close,
        ConnectionEvent::Closed => ConnectionAction::Drain,
        ConnectionEvent::Drained(count) => if count == 0 {
            ConnectionAction::Accept
        } else {
            ConnectionAction::Drain
        },
        ConnectionEvent::Aborted | ConnectionEvent::DrainFailed => ConnectionAction::Accept,
    }
}

/// What is done next with a connection.
pub fn next_action(event: ConnectionEvent) -> (r: ConnectionAction)
    ensures
        r == next_of(event),
{
    match event {
        ConnectionEvent::Accepted => ConnectionAction::Serve,
        ConnectionEvent::AcceptFailed => ConnectionAction::Abort,
        ConnectionEvent::Served => ConnectionAction::Close,
        ConnectionEvent::Closed => ConnectionAction::Drain,
        ConnectionEvent::Drained(count) => {
            if count == 0 {
                ConnectionAction::Accept
            } else {
                ConnectionAction::Drain
            }
        },
        ConnectionEvent::Aborted | ConnectionEvent::DrainFailed => ConnectionAction::Accept,
    }
}

/// A request is routed by its request line alone, as long as what follows is UTF-8 too. Headers
/// that were cut before their end may be cut within a character.
pub proof fn routing_needs_only_the_request_line(line: Seq<char>, rest: Seq<u8>, cut: Seq<u8>)
    requires
        http::line_end(line) == line.len(),
        valid_utf8(rest),
        cut.len() == 0 || text::is_unfinished(cut) && !contains_part(
            encode_utf8(line) + seq![13u8, 10u8] + rest + cut,
            HEAD_END@,
        ),
    ensures
        request_route(encode_utf8(line) + seq![13u8, 10u8] + rest + cut) == request_route(
            encode_utf8(line),
        ),
{
    let follows = decode_utf8(rest);
    let request = line + seq!['\r', '\n'] + follows;
    let whole = encode_utf8(line) + seq![13u8, 10u8] + rest;
    let captured = whole + cut;
    decode_utf8_encode_utf8(rest);
    text::lemma_encode_concat(line, seq!['\r', '\n']);
    text::lemma_encode_concat(line + seq!['\r', '\n'], follows);
    is_ascii_chars_encode_utf8(seq!['\r', '\n']);
    assert(encode_utf8(seq!['\r', '\n']) =~= seq![13u8, 10u8]);
    assert(whole == encode_utf8(request));
    encode_utf8_valid_utf8(request);
    encode_utf8_decode_utf8(request);
    encode_utf8_valid_utf8(line);
    encode_utf8_decode_utf8(line);
    http::only_the_request_line_counts(line, follows);
    if cut.len() == 0 {
        assert(captured =~= whole);
    } else {
        text::unfinished_character_is_dropped(whole, cut);
        text::lemma_unfinished_shape(cut);
        assert(captured.subrange(0, whole.len() as int) =~= whole);
        assert(captured.subrange(whole.len() as int, captured.len() as int) =~= cut);
        partial_valid_partial_invalid_utf8(captured, whole.len() as int);
        http::line_ends_at_the_first_break(line, follows);
    }
}

/// A `GET` request is routed by its path, with or without a query.
pub proof fn get_requests_are_routed_by_path(
    path: Seq<char>,
    query: Option<Seq<char>>,
    rest: Seq<char>,
)
    requires
        path.len() > 0 || query is Some,
        forall|i: int| 0 <= i < path.len() ==> path[i] != ' ' && path[i] != '?' && path[i] != '\r',
        query matches Some(q) ==> forall|i: int| 0 <= i < q.len() ==> q[i] != ' ' && q[i] != '\r',
    ensures
        request_route(
            encode_utf8(
                "GET "@ + path + (match query {
                    Some(q) => seq!['?'] + q,
                    None => Seq::empty(),
                }) + seq![' '] + rest,
            ),
        ) == path_route(Some(path)),
{
    let request = "GET "@ + path + (match query {
        Some(q) => seq!['?'] + q,
        None => Seq::empty(),
    }) + seq![' '] + rest;
    http::get_request_is_read_back(path, query, rest);
    encode_utf8_valid_utf8(request);
    encode_utf8_decode_utf8(request);
}

/// Every request is answered with success, but for one that asks for nothing known.
pub proof fn only_unknown_routes_are_not_found<E, H, P, A>(
    response: Response,
    route: Route,
    state: ServerState<E, H, P, A>,
    chip: Chip,
    hardware: Hardware,
    free_heap: u32,
    free_psram: Option<u32>,
)
    requires
        answers(response, route, state, chip, hardware, free_heap, free_psram),
        route != Route::Events,
    ensures
        response.status == Status::NotFound <==> route == Route::NotFound,
        response.content_type == ContentType::Html <==> route == Route::Index,
        response.content_type == ContentType::Plain <==> route == Route::NotFound,
{
}

} // verus!
