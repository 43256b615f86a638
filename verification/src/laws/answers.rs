//! What a viewer is asked for, and what it answers.

use crate::capabilities::Chip;
use crate::fixed::FixedString;
use crate::http::HEADER_CAP;
use crate::hwinfo::Hardware;
use crate::laws::configuration;
use crate::laws::texts;
use crate::protocol;
use crate::protocol::PartitionInfo;
use crate::sampler::Frame;
use crate::server;
use crate::server::{Body, ContentType, Response, Route, ServerState, Status};
use crate::text;
use crate::viewer::GpioViewer;
use vstd::prelude::*;
use vstd::string::*;

verus! {

/// Whether an index page tells where the viewer is: its address, its port in decimal digits, and
/// the free sketch RAM, each between its marks.
pub open spec fn tells_where(
    page: Seq<char>,
    ip: Seq<char>,
    port: int,
    free_sketch_ram: Seq<char>,
) -> bool {
    exists|before: Seq<char>, digits: Seq<char>, after: Seq<char>|
        {
            &&& #[trigger] texts::is_page_around(page, before, ip, digits, free_sketch_ram, after)
            &&& texts::is_number(digits, 10, port)
        }
}

/// The index page of a viewer tells its address and the port that it is configured with.
pub proof fn index_tells_the_configured_port<E, H, P, A>(
    state: &ServerState<E, H, P, A>,
    chip: Chip,
    hardware: Hardware,
    free_heap: u32,
    free_psram: Option<u32>,
    r: Response,
)
    requires
        call_ensures(
            server::respond::<E, H, P, A>,
            (Route::Index, state, chip, hardware, free_heap, free_psram),
            r,
        ),
    ensures
        r.status == Status::Success,
        r.content_type == ContentType::Html,
        tells_where(
            r.body@,
            state.ip@,
            state.viewer.port as int,
            state.free_sketch_ram@,
        ),
{
    let port = state.viewer.port as nat;
    texts::index_page_holds_its_settings(state.ip@, port, state.free_sketch_ram@);
    let (before, after) = choose|before: Seq<char>, after: Seq<char>|
        #[trigger] texts::is_page_around(
            r.body@,
            before,
            state.ip@,
            text::decimal(port),
            state.free_sketch_ram@,
            after,
        );
    assert(texts::is_page_around(
        r.body@,
        before,
        state.ip@,
        text::decimal(port),
        state.free_sketch_ram@,
        after,
    ));
}

/// Two viewers that differ in their ports, and not in what else the index page tells, are served
/// different pages.
pub proof fn different_ports_give_different_pages<E, H, P, A>(
    state: &ServerState<E, H, P, A>,
    other: &ServerState<E, H, P, A>,
    chip: Chip,
    hardware: Hardware,
    free_heap: u32,
    free_psram: Option<u32>,
    r: Response,
    other_r: Response,
)
    requires
        call_ensures(
            server::respond::<E, H, P, A>,
            (Route::Index, state, chip, hardware, free_heap, free_psram),
            r,
        ),
        call_ensures(
            server::respond::<E, H, P, A>,
            (Route::Index, other, chip, hardware, free_heap, free_psram),
            other_r,
        ),
        state.viewer.port != other.viewer.port,
        state.ip@ == other.ip@,
        state.free_sketch_ram@ == other.free_sketch_ram@,
    ensures
        r.body@ != other_r.body@,
{
    texts::index_pages_tell_ports_apart(
        state.ip@,
        state.viewer.port as nat,
        other.viewer.port as nat,
        state.free_sketch_ram@,
    );
}

/// A viewer that was configured with a port tells that port, whatever else it was configured with.
pub proof fn served_port_is_the_one_that_was_set<E, H, P, A>(
    builder: crate::viewer::GpioViewerBuilder<H, P, A>,
    port: u16,
    with_port: crate::viewer::GpioViewerBuilder<H, P, A>,
    viewer: &GpioViewer<H, P, A>,
    ip: &str,
    free_sketch_ram: &str,
    events: &E,
    partitions: &[PartitionInfo],
    state: &ServerState<E, H, P, A>,
    chip: Chip,
    hardware: Hardware,
    free_heap: u32,
    free_psram: Option<u32>,
    r: Response,
)
    requires
        call_ensures(
            crate::viewer::GpioViewerBuilder::<H, P, A>::port,
            (builder, port),
            with_port,
        ),
        call_ensures(
            crate::viewer::GpioViewerBuilder::<H, P, A>::build,
            (with_port,),
            *viewer,
        ),
        call_ensures(
            ServerState::<E, H, P, A>::new,
            (viewer, ip, free_sketch_ram, events, partitions),
            *state,
        ),
        call_ensures(
            server::respond::<E, H, P, A>,
            (Route::Index, state, chip, hardware, free_heap, free_psram),
            r,
        ),
        text::utf8_len(ip@) <= 15,
        text::utf8_len(free_sketch_ram@) <= 16,
    ensures
        tells_where(r.body@, ip@, port as int, free_sketch_ram@),
{
    texts::lemma_clip_is_what_fits(ip@, 15);
    texts::lemma_clip_is_what_fits(free_sketch_ram@, 16);
    index_tells_the_configured_port(state, chip, hardware, free_heap, free_psram, r);
}

/// The server keeps the viewer, the channel and the partitions as they are, and what fits of the
/// address and the free sketch RAM.
pub proof fn servers_keep_what_they_are_given<'a, E, H, P, A>(
    viewer: &'a GpioViewer<H, P, A>,
    ip: &str,
    free_sketch_ram: &str,
    events: &'a E,
    partitions: &'a [PartitionInfo<'a>],
    r: ServerState<'a, E, H, P, A>,
)
    requires
        call_ensures(
            ServerState::<'a, E, H, P, A>::new,
            (viewer, ip, free_sketch_ram, events, partitions),
            r,
        ),
    ensures
        r.viewer == viewer,
        r.events == events,
        r.partitions@ == partitions@,
        texts::is_what_fits(r.ip@, ip@, 15),
        texts::is_what_fits(r.free_sketch_ram@, free_sketch_ram@, 16),
{
    texts::lemma_clip_is_what_fits(ip@, 15);
    texts::lemma_clip_is_what_fits(free_sketch_ram@, 16);
}

/// Whether an object shows a chip, the readings of its registers, and the free memory.
pub open spec fn shows_chip(
    object: Seq<char>,
    chip: Chip,
    hardware: Hardware,
    free_heap: u32,
    free_psram: Option<u32>,
) -> bool {
    let model = match chip {
        Chip::Esp32 => "ESP32"@,
        Chip::Esp32S3 => "ESP32-S3"@,
        Chip::Host => "unknown"@,
    };
    let cores: nat = if chip == Chip::Host {
        0
    } else {
        2
    };
    let features = match chip {
        Chip::Esp32 => "[\"WiFi\",\"BLE\",\"BT\"]"@,
        Chip::Esp32S3 => "[\"WiFi\",\"BLE\"]"@,
        Chip::Host => "[]"@,
    };
    let psram: nat = match free_psram {
        Some(bytes) => bytes as nat,
        None => 0,
    };
    &&& texts::has_field(object, texts::named("chip_model"@, texts::in_quotes(model)))
    &&& texts::has_field(
        object,
        texts::named("cores_count"@, texts::in_quotes(text::decimal(cores))),
    )
    &&& texts::has_field(
        object,
        texts::named(
            "chip_revision"@,
            texts::in_quotes(text::decimal(hardware.chip_revision as nat)),
        ),
    )
    &&& texts::has_field(
        object,
        texts::named(
            "cpu_frequency"@,
            texts::in_quotes(text::decimal(hardware.cpu_frequency as nat)),
        ),
    )
    &&& texts::has_field(
        object,
        texts::named("mac"@, texts::in_quotes(text::decimal(hardware.mac as nat))),
    )
    &&& texts::has_field(
        object,
        texts::named("up_time"@, texts::in_quotes(text::decimal(hardware.up_time as nat))),
    )
    &&& texts::has_field(
        object,
        texts::named("uptime_us"@, text::decimal(hardware.uptime_us as nat)),
    )
    &&& texts::has_field(object, texts::named("chip_features"@, features))
    &&& texts::has_field(
        object,
        texts::named("reset_reason_code"@, text::signed_decimal(hardware.reset_code as int)),
    )
    &&& texts::has_field(
        object,
        texts::named(
            "reset_reason"@,
            texts::in_quotes(crate::hwinfo::reset_name(hardware.reset_code)),
        ),
    )
    &&& texts::has_field(object, texts::named("free_heap"@, text::decimal(free_heap as nat)))
    &&& texts::has_field(object, texts::named("free_psram"@, text::decimal(psram)))
}

/// Whether a response holds what its route asks for. `/events` and unknown paths are not found.
pub open spec fn holds_what_is_asked<E, H, P, A>(
    r: Response,
    route: Route,
    state: ServerState<E, H, P, A>,
    chip: Chip,
    hardware: Hardware,
    free_heap: u32,
    free_psram: Option<u32>,
) -> bool {
    let viewer = state.viewer;
    match route {
        Route::Index => {
            &&& r.status == Status::Success
            &&& r.content_type == ContentType::Html
            &&& tells_where(r.body@, state.ip@, viewer.port as int, state.free_sketch_ram@)
        },
        Route::Events | Route::NotFound => {
            &&& r.status == Status::NotFound
            &&& r.content_type == ContentType::Plain
            &&& r.body@ == "Not Found"@
        },
        _ => {
            &&& r.status == Status::Success
            &&& r.content_type == ContentType::Json
            &&& match route {
                Route::Release => r.body@ == "{\"release\": \""@ + viewer.release@ + "\"}"@,
                Route::Sampling => exists|digits: Seq<char>|
                    {
                        &&& #[trigger] texts::is_number(
                            digits,
                            10,
                            viewer.sampling_interval_ms as int,
                        )
                        &&& r.body@ == "{\"sampling\": \""@ + digits + "\"}"@
                    },
                Route::FreePsram => exists|digits: Seq<char>, shown: Seq<char>|
                    {
                        &&& #[trigger] texts::is_number(
                            digits,
                            10,
                            viewer.sampling_interval_ms as int,
                        )
                        &&& #[trigger] texts::shows_psram(shown, free_psram)
                        &&& r.body@ == "{\"sampling\": \""@ + digits + " "@ + shown + "\"}"@
                    },
                Route::PinModes => exists|pairs: Seq<(u8, u32)>|
                    {
                        &&& #[trigger] configuration::are_modes_of(pairs, viewer.pins@)
                        &&& r.body@ == protocol::pinmodes_text(pairs)
                    },
                Route::PinFunctions => exists|adc: Seq<u8>, touch: Seq<u8>|
                    {
                        &&& #[trigger] configuration::are_pins_of(chip, adc, touch)
                        &&& r.body@ == "{\"boardpinsfunction\":["@ + protocol::pin_function_group(
                            "ADC"@,
                            adc,
                        ) + ","@ + protocol::pin_function_group("Touch"@, touch) + "]}"@
                    },
                Route::EspInfo => {
                    &&& shows_chip(r.body@, chip, hardware, free_heap, free_psram)
                    &&& exists|info: protocol::EspInfo|
                        {
                            &&& #[trigger] configuration::is_known_of(
                                info,
                                chip,
                                hardware,
                                free_heap,
                                free_psram,
                            )
                            &&& r.body@ == texts::all_values(info)
                        }
                },
                _ => texts::is_what_fits(
                    r.body@,
                    protocol::partition_text(state.partitions@),
                    2048,
                ),
            }
        },
    }
}

/// The features of a chip as an array of names.
proof fn lemma_features_of(chip: Chip, names: Seq<&str>)
    requires
        names.map_values(|name: &str| name@) == chip.spec_features(),
    ensures
        chip == Chip::Esp32 ==> protocol::feature_array(names) == "[\"WiFi\",\"BLE\",\"BT\"]"@,
        chip == Chip::Esp32S3 ==> protocol::feature_array(names) == "[\"WiFi\",\"BLE\"]"@,
        chip == Chip::Host ==> protocol::feature_array(names) == "[]"@,
{
    reveal_strlit("[\"WiFi\",\"BLE\",\"BT\"]");
    reveal_strlit("[\"WiFi\",\"BLE\"]");
    reveal_strlit("[]");
    reveal_strlit("[");
    reveal_strlit("]");
    reveal_strlit(",");
    reveal_strlit("\"");
    reveal_strlit("WiFi");
    reveal_strlit("BLE");
    reveal_strlit("BT");
    reveal_with_fuel(text::joined, 4);
    let shown = names.map_values(|name: &str| name@);
    assert(shown.len() == names.len());
    assert(forall|i: int| 0 <= i < names.len() ==> #[trigger] shown[i] == names[i]@);
    let entries = protocol::feature_entries(names);
    if chip == Chip::Esp32 {
        assert(entries[0] == protocol::quoted("WiFi"@));
        assert(entries[1] == protocol::quoted("BLE"@));
        assert(entries[2] == protocol::quoted("BT"@));
        assert(text::joined(entries, ","@) == entries[0] + ","@ + entries[1] + ","@ + entries[2]);
        assert(protocol::feature_array(names) =~= "[\"WiFi\",\"BLE\",\"BT\"]"@);
    } else if chip == Chip::Esp32S3 {
        assert(entries[0] == protocol::quoted("WiFi"@));
        assert(entries[1] == protocol::quoted("BLE"@));
        assert(text::joined(entries, ","@) == entries[0] + ","@ + entries[1]);
        assert(protocol::feature_array(names) =~= "[\"WiFi\",\"BLE\"]"@);
    } else {
        assert(protocol::feature_array(names) =~= "[]"@);
    }
}

/// Every answer that a route has holds what the route asks for.
proof fn lemma_answers_hold_what_is_asked<E, H, P, A>(
    r: Response,
    route: Route,
    state: ServerState<E, H, P, A>,
    chip: Chip,
    hardware: Hardware,
    free_heap: u32,
    free_psram: Option<u32>,
)
    requires
        server::answers(r, route, state, chip, hardware, free_heap, free_psram),
    ensures
        holds_what_is_asked(r, route, state, chip, hardware, free_heap, free_psram),
{
    let viewer = state.viewer;
    let interval = viewer.sampling_interval_ms as nat;
    texts::decimal_digits_are_the_number(interval);
    match route {
        Route::Index => {
            let port = viewer.port as nat;
            texts::index_page_holds_its_settings(state.ip@, port, state.free_sketch_ram@);
            let (before, after) = choose|before: Seq<char>, after: Seq<char>|
                #[trigger] texts::is_page_around(
                    r.body@,
                    before,
                    state.ip@,
                    text::decimal(port),
                    state.free_sketch_ram@,
                    after,
                );
            assert(texts::is_page_around(
                r.body@,
                before,
                state.ip@,
                text::decimal(port),
                state.free_sketch_ram@,
                after,
            ));
        },
        Route::FreePsram => {
            if let Some(bytes) = free_psram {
                texts::lemma_bytes_text_shows_bytes(bytes as nat);
            }
            assert(texts::shows_psram(protocol::psram_text(free_psram), free_psram));
        },
        Route::PinModes => {
            assert(configuration::are_modes_of(
                crate::viewer::pinmode_pairs_of(viewer.pins@),
                viewer.pins@,
            ));
        },
        Route::PinFunctions => {
            configuration::lemma_pins_of(chip);
        },
        Route::EspInfo => {
            let info = choose|info: protocol::EspInfo|
                {
                    &&& #[trigger] crate::hwinfo::informs_on(
                        info,
                        chip,
                        hardware,
                        free_heap,
                        free_psram,
                    )
                    &&& r.is_ok(ContentType::Json, protocol::espinfo_text(info))
                };
            texts::espinfo_shows_its_leading_values(info);
            texts::espinfo_shows_its_trailing_values(info);
            texts::espinfo_is_all_values(info);
            lemma_features_of(chip, info.chip_features@);
            configuration::lemma_information_is_known(
                info,
                chip,
                hardware,
                free_heap,
                free_psram,
            );
        },
        Route::Partition => {
            texts::lemma_clip_is_what_fits(protocol::partition_text(state.partitions@), 2048);
        },
        _ => {},
    }
}

/// A response holds what its route asks for.
pub proof fn responses_hold_what_is_asked<E, H, P, A>(
    route: Route,
    state: &ServerState<E, H, P, A>,
    chip: Chip,
    hardware: Hardware,
    free_heap: u32,
    free_psram: Option<u32>,
    r: Response,
)
    requires
        call_ensures(
            server::respond::<E, H, P, A>,
            (route, state, chip, hardware, free_heap, free_psram),
            r,
        ),
    ensures
        holds_what_is_asked(r, route, *state, chip, hardware, free_heap, free_psram),
{
    lemma_answers_hold_what_is_asked(r, route, *state, chip, hardware, free_heap, free_psram);
}

/// Whether the free memory is what the sources of a viewer say: no free heap without a source for
/// it, and no PSRAM without one for that.
pub open spec fn is_said_by_sources<H: Fn() -> u32, P: Fn() -> u32, A>(
    viewer: GpioViewer<H, P, A>,
    free_heap: u32,
    free_psram: Option<u32>,
) -> bool {
    &&& match viewer.free_heap_source {
        Some(read_heap) => call_ensures(read_heap, (), free_heap),
        None => free_heap == 0,
    }
    &&& match viewer.free_psram_source {
        Some(read_psram) => free_psram matches Some(bytes) && call_ensures(read_psram, (), bytes),
        None => free_psram is None,
    }
}

/// What is served about the chip comes from its readings, and the free memory from the sources.
pub proof fn served_information_is_said_by_sources<
    M: Fn() -> Hardware,
    E,
    H: Fn() -> u32 + Copy,
    P: Fn() -> u32 + Copy,
    A,
>(state: &ServerState<E, H, P, A>, chip: Chip, read_hardware: &M, r: Response)
    requires
        call_ensures(
            server::serve_rest::<M, E, H, P, A>,
            (Route::EspInfo, state, chip, read_hardware),
            r,
        ),
    ensures
        exists|hardware: Hardware, free_heap: u32, free_psram: Option<u32>|
            {
                &&& call_ensures(*read_hardware, (), hardware)
                &&& is_said_by_sources(*state.viewer, free_heap, free_psram)
                &&& #[trigger] holds_what_is_asked(
                    r,
                    Route::EspInfo,
                    *state,
                    chip,
                    hardware,
                    free_heap,
                    free_psram,
                )
            },
{
    let (hardware, free_heap, free_psram) = choose|
        hardware: Hardware,
        free_heap: u32,
        free_psram: Option<u32>,
    |
        {
            &&& #[trigger] server::is_report(
                Route::EspInfo,
                *state.viewer,
                *read_hardware,
                hardware,
                free_heap,
                free_psram,
            )
            &&& server::answers(
                r,
                Route::EspInfo,
                *state,
                chip,
                hardware,
                free_heap,
                free_psram,
            )
        };
    lemma_answers_hold_what_is_asked(
        r,
        Route::EspInfo,
        *state,
        chip,
        hardware,
        free_heap,
        free_psram,
    );
}

/// The free PSRAM that is served comes from its source.
pub proof fn served_psram_is_said_by_its_source<
    M: Fn() -> Hardware,
    E,
    H: Fn() -> u32 + Copy,
    P: Fn() -> u32 + Copy,
    A,
>(state: &ServerState<E, H, P, A>, chip: Chip, read_hardware: &M, r: Response)
    requires
        call_ensures(
            server::serve_rest::<M, E, H, P, A>,
            (Route::FreePsram, state, chip, read_hardware),
            r,
        ),
    ensures
        exists|hardware: Hardware, free_heap: u32, free_psram: Option<u32>|
            {
                &&& match state.viewer.free_psram_source {
                    Some(read_psram) => free_psram matches Some(bytes) && call_ensures(
                        read_psram,
                        (),
                        bytes,
                    ),
                    None => free_psram is None,
                }
                &&& #[trigger] holds_what_is_asked(
                    r,
                    Route::FreePsram,
                    *state,
                    chip,
                    hardware,
                    free_heap,
                    free_psram,
                )
            },
{
    let (hardware, free_heap, free_psram) = choose|
        hardware: Hardware,
        free_heap: u32,
        free_psram: Option<u32>,
    |
        {
            &&& #[trigger] server::is_report(
                Route::FreePsram,
                *state.viewer,
                *read_hardware,
                hardware,
                free_heap,
                free_psram,
            )
            &&& server::answers(
                r,
                Route::FreePsram,
                *state,
                chip,
                hardware,
                free_heap,
                free_psram,
            )
        };
    lemma_answers_hold_what_is_asked(
        r,
        Route::FreePsram,
        *state,
        chip,
        hardware,
        free_heap,
        free_psram,
    );
}

/// What else is served needs no readings: it holds what is asked whatever they would be.
pub proof fn other_answers_need_no_readings<
    M: Fn() -> Hardware,
    E,
    H: Fn() -> u32 + Copy,
    P: Fn() -> u32 + Copy,
    A,
>(
    route: Route,
    state: &ServerState<E, H, P, A>,
    chip: Chip,
    read_hardware: &M,
    r: Response,
    hardware: Hardware,
    free_heap: u32,
    free_psram: Option<u32>,
)
    requires
        route != Route::EspInfo,
        route != Route::FreePsram,
        call_ensures(
            server::serve_rest::<M, E, H, P, A>,
            (route, state, chip, read_hardware),
            r,
        ),
    ensures
        holds_what_is_asked(r, route, *state, chip, hardware, free_heap, free_psram),
{
    lemma_answers_hold_what_is_asked(r, route, *state, chip, hardware, free_heap, free_psram);
}

/// The header of a response tells its status, its type and the number of bytes of its body.
pub proof fn headers_describe_the_response(
    response: &Response,
    r: FixedString<HEADER_CAP>,
)
    requires
        call_ensures(Response::header, (response,), r),
    ensures
        exists|status: Seq<char>, media: Seq<char>, digits: Seq<char>|
            {
                &&& status == (if response.status == Status::Success {
                    "200 OK"@
                } else {
                    "404 Not Found"@
                })
                &&& media == (if response.content_type == ContentType::Html {
                    "text/html"@
                } else if response.content_type == ContentType::Json {
                    "application/json"@
                } else {
                    "text/plain"@
                })
                &&& texts::is_number(digits, 10, text::utf8_len(response.body@) as int)
                &&& r@ == #[trigger] header_with(status, media, digits)
            },
{
    let length = text::utf8_len(response.body@);
    texts::decimal_digits_are_the_number(length);
    assert(r@ == header_with(
        response.status.spec_text(),
        response.content_type.spec_text(),
        text::decimal(length),
    ));
}

/// The header with a status, a media type and the digits of a length.
pub open spec fn header_with(status: Seq<char>, media: Seq<char>, digits: Seq<char>) -> Seq<char> {
    "HTTP/1.1 "@ + status + "\r\nContent-Type: "@ + media + "\r\nContent-Length: "@ + digits
        + "\r\nConnection: close\r\n\r\n"@
}

/// The partitions of the common layout follow each other in flash without a gap, the settings
/// first, then the choice of the application, then the application itself.
pub proof fn default_partitions_follow_each_other(r: &[PartitionInfo])
    requires
        call_ensures(server::default_partitions, (), r),
    ensures
        r@.len() == 3,
        r@[0].label@ == "nvs"@ && r@[0].ptype == 1 && r@[0].subtype == 2,
        r@[1].label@ == "otadata"@ && r@[1].ptype == 1 && r@[1].subtype == 0,
        r@[2].label@ == "app0"@ && r@[2].ptype == 0 && r@[2].subtype == 16,
        r@[0].address == 0x9000,
        r@[1].address == r@[0].address + r@[0].size,
        r@[2].address == r@[1].address + r@[1].size,
        r@[2].address == 0x10000,
        r@[2].size == 0x140000,
        r@[1].size == 0x2000,
{
}

/// A body is sent as it is.
pub proof fn bodies_are_sent_as_they_are(body: &Body, r: &str)
    requires
        call_ensures(Body::as_str, (body,), r),
    ensures
        *body matches Body::Fixed(shown) ==> r@ == shown@,
        *body matches Body::Short(shown) ==> r@ == shown@,
        *body matches Body::Page(shown) ==> r@ == shown@,
        *body matches Body::Long(shown) ==> r@ == shown@,
{
}

/// A frame is sent as a server-sent event with the name of its kind and its text as it is.
pub proof fn frames_are_sent_as_events(frame: &Frame, r: [&str; 5])
    requires
        call_ensures(server::frame_event, (frame,), r),
    ensures
        ({
            let sent = r@[0]@ + r@[1]@ + r@[2]@ + r@[3]@ + r@[4]@;
            &&& *frame matches Frame::GpioState(data) ==> sent == "event: "@ + "gpio-state"@
                + "\ndata: "@ + data@ + "\n\n"@
            &&& *frame matches Frame::FreeHeap(data) ==> sent == "event: "@ + "free_heap"@
                + "\ndata: "@ + data@ + "\n\n"@
            &&& *frame matches Frame::FreePsram(data) ==> sent == "event: "@ + "free_psram"@
                + "\ndata: "@ + data@ + "\n\n"@
        }),
{
}

/// A server-sent event is its name and its text behind each other.
pub proof fn events_have_name_and_data(name: &str, data: &str, r: [&str; 5])
    requires
        call_ensures(server::sse_event, (name, data), r),
    ensures
        r@[0]@ + r@[1]@ + r@[2]@ + r@[3]@ + r@[4]@ == "event: "@ + name@ + "\ndata: "@ + data@
            + "\n\n"@,
{
}

} // verus!
