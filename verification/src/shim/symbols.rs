//! Symbol resolution: which library loads are caught, and which function a
//! symbol stands for.
use crate::text::{contains, occurs, str_eq};
use vstd::prelude::*;

verus! {

/// Number of functions that can be looked up.
pub const SYMBOLS: usize = 98;

/// The names of the functions that can be looked up.
pub open spec fn symbol_names() -> Seq<Seq<char>> {
    seq![
        "snd_pcm_open"@,
        "snd_pcm_close"@,
        "snd_pcm_writei"@,
        "snd_pcm_prepare"@,
        "snd_pcm_drain"@,
        "snd_pcm_drop"@,
        "snd_pcm_start"@,
        "snd_pcm_pause"@,
        "snd_pcm_state"@,
        "snd_pcm_avail_update"@,
        "snd_pcm_avail"@,
        "snd_pcm_rewind"@,
        "snd_pcm_forward"@,
        "snd_pcm_nonblock"@,
        "snd_pcm_delay"@,
        "snd_pcm_hw_params_malloc"@,
        "snd_pcm_hw_params_free"@,
        "snd_pcm_hw_params_any"@,
        "snd_pcm_hw_params_set_access"@,
        "snd_pcm_hw_params_set_format"@,
        "snd_pcm_hw_params_set_channels"@,
        "snd_pcm_hw_params_set_rate_near"@,
        "snd_pcm_hw_params_set_buffer_size_near"@,
        "snd_pcm_hw_params_set_period_size_near"@,
        "snd_pcm_hw_params_set_periods_near"@,
        "snd_pcm_hw_params_get_buffer_size"@,
        "snd_pcm_hw_params_get_period_size"@,
        "snd_pcm_hw_params_get_period_time"@,
        "snd_pcm_hw_params"@,
        "snd_pcm_hw_params_current"@,
        "snd_pcm_sw_params_malloc"@,
        "snd_pcm_sw_params_free"@,
        "snd_pcm_sw_params_current"@,
        "snd_pcm_sw_params_set_avail_min"@,
        "snd_pcm_sw_params_set_start_threshold"@,
        "snd_pcm_sw_params_set_stop_threshold"@,
        "snd_pcm_sw_params_get_boundary"@,
        "snd_pcm_sw_params"@,
        "snd_strerror"@,
        "snd_pcm_format_size"@,
        "snd_pcm_format_physical_width"@,
        "snd_pcm_format_width"@,
        "snd_pcm_format_little_endian"@,
        "snd_pcm_format_signed"@,
        "snd_pcm_recover"@,
        "snd_pcm_set_params"@,
        "snd_pcm_get_params"@,
        "snd_pcm_frames_to_bytes"@,
        "snd_pcm_open_lconf"@,
        "snd_pcm_poll_descriptors"@,
        "snd_pcm_poll_descriptors_count"@,
        "snd_pcm_poll_descriptors_revents"@,
        "snd_pcm_hw_params_get_channels_max"@,
        "snd_pcm_hw_params_get_rate"@,
        "snd_config_add"@,
        "snd_config_copy"@,
        "snd_config_delete"@,
        "snd_config_get_id"@,
        "snd_config_get_string"@,
        "snd_config_imake_integer"@,
        "snd_config_search"@,
        "snd_config_search_definition"@,
        "snd_lib_error_set_handler"@,
        "snd_pcm_dump"@,
        "snd_pcm_hw_params_dump"@,
        "snd_pcm_hw_params_can_pause"@,
        "snd_pcm_hw_params_copy"@,
        "snd_pcm_hw_params_get_buffer_size_max"@,
        "snd_pcm_hw_params_get_period_size_min"@,
        "snd_pcm_hw_params_set_buffer_time_near"@,
        "snd_pcm_hw_params_set_channels_near"@,
        "snd_pcm_hw_params_set_rate_resample"@,
        "snd_pcm_hw_params_sizeof"@,
        "snd_pcm_hw_params_test_format"@,
        "snd_pcm_sw_params_set_silence_size"@,
        "snd_pcm_sw_params_sizeof"@,
        "snd_pcm_status"@,
        "snd_pcm_status_get_avail"@,
        "snd_pcm_status_get_delay"@,
        "snd_pcm_status_get_state"@,
        "snd_pcm_status_sizeof"@,
        "snd_pcm_state_name"@,
        "snd_pcm_readi"@,
        "snd_pcm_writen"@,
        "snd_pcm_resume"@,
        "snd_pcm_stream"@,
        "snd_output_buffer_open"@,
        "snd_output_buffer_string"@,
        "snd_output_close"@,
        "snd_output_flush"@,
        "snd_pcm_get_chmap"@,
        "snd_pcm_set_chmap"@,
        "snd_pcm_free_chmaps"@,
        "snd_pcm_query_chmaps"@,
        "snd_pcm_chmap_print"@,
        "snd_pcm_chmap_name"@,
        "snd_pcm_chmap_long_name"@,
        "snd_pcm_chmap_type_name"@,
    ]
}

/// The names of the functions that can be looked up.
pub fn symbols() -> (v: Vec<&'static str>)
    ensures
        v@.map_values(|s: &'static str| s@) == symbol_names(),
        v@.len() == SYMBOLS,
{
    let v: Vec<&'static str> = vec![
        "snd_pcm_open",
        "snd_pcm_close",
        "snd_pcm_writei",
        "snd_pcm_prepare",
        "snd_pcm_drain",
        "snd_pcm_drop",
        "snd_pcm_start",
        "snd_pcm_pause",
        "snd_pcm_state",
        "snd_pcm_avail_update",
        "snd_pcm_avail",
        "snd_pcm_rewind",
        "snd_pcm_forward",
        "snd_pcm_nonblock",
        "snd_pcm_delay",
        "snd_pcm_hw_params_malloc",
        "snd_pcm_hw_params_free",
        "snd_pcm_hw_params_any",
        "snd_pcm_hw_params_set_access",
        "snd_pcm_hw_params_set_format",
        "snd_pcm_hw_params_set_channels",
        "snd_pcm_hw_params_set_rate_near",
        "snd_pcm_hw_params_set_buffer_size_near",
        "snd_pcm_hw_params_set_period_size_near",
        "snd_pcm_hw_params_set_periods_near",
        "snd_pcm_hw_params_get_buffer_size",
        "snd_pcm_hw_params_get_period_size",
        "snd_pcm_hw_params_get_period_time",
        "snd_pcm_hw_params",
        "snd_pcm_hw_params_current",
        "snd_pcm_sw_params_malloc",
        "snd_pcm_sw_params_free",
        "snd_pcm_sw_params_current",
        "snd_pcm_sw_params_set_avail_min",
        "snd_pcm_sw_params_set_start_threshold",
        "snd_pcm_sw_params_set_stop_threshold",
        "snd_pcm_sw_params_get_boundary",
        "snd_pcm_sw_params",
        "snd_strerror",
        "snd_pcm_format_size",
        "snd_pcm_format_physical_width",
        "snd_pcm_format_width",
        "snd_pcm_format_little_endian",
        "snd_pcm_format_signed",
        "snd_pcm_recover",
        "snd_pcm_set_params",
        "snd_pcm_get_params",
        "snd_pcm_frames_to_bytes",
        "snd_pcm_open_lconf",
        "snd_pcm_poll_descriptors",
        "snd_pcm_poll_descriptors_count",
        "snd_pcm_poll_descriptors_revents",
        "snd_pcm_hw_params_get_channels_max",
        "snd_pcm_hw_params_get_rate",
        "snd_config_add",
        "snd_config_copy",
        "snd_config_delete",
        "snd_config_get_id",
        "snd_config_get_string",
        "snd_config_imake_integer",
        "snd_config_search",
        "snd_config_search_definition",
        "snd_lib_error_set_handler",
        "snd_pcm_dump",
        "snd_pcm_hw_params_dump",
        "snd_pcm_hw_params_can_pause",
        "snd_pcm_hw_params_copy",
        "snd_pcm_hw_params_get_buffer_size_max",
        "snd_pcm_hw_params_get_period_size_min",
        "snd_pcm_hw_params_set_buffer_time_near",
        "snd_pcm_hw_params_set_channels_near",
        "snd_pcm_hw_params_set_rate_resample",
        "snd_pcm_hw_params_sizeof",
        "snd_pcm_hw_params_test_format",
        "snd_pcm_sw_params_set_silence_size",
        "snd_pcm_sw_params_sizeof",
        "snd_pcm_status",
        "snd_pcm_status_get_avail",
        "snd_pcm_status_get_delay",
        "snd_pcm_status_get_state",
        "snd_pcm_status_sizeof",
        "snd_pcm_state_name",
        "snd_pcm_readi",
        "snd_pcm_writen",
        "snd_pcm_resume",
        "snd_pcm_stream",
        "snd_output_buffer_open",
        "snd_output_buffer_string",
        "snd_output_close",
        "snd_output_flush",
        "snd_pcm_get_chmap",
        "snd_pcm_set_chmap",
        "snd_pcm_free_chmaps",
        "snd_pcm_query_chmaps",
        "snd_pcm_chmap_print",
        "snd_pcm_chmap_name",
        "snd_pcm_chmap_long_name",
        "snd_pcm_chmap_type_name",
    ];
    assert(v@.map_values(|s: &'static str| s@) =~= symbol_names());
    v
}

/// Whether `name` asks for the function `symbol`, with or without its version.
pub open spec fn names_symbol(name: Seq<char>, symbol: Seq<char>) -> bool {
    name == symbol || name == symbol + "@ALSA_0.9"@
}

/// The number of the function that `name` asks for: the first in the list of
/// names. `None` when there is none.
pub fn lookup(name: &str) -> (r: Option<usize>)
    ensures
        match r {
            Some(i) => {
                &&& i < symbol_names().len()
                &&& names_symbol(name@, symbol_names()[i as int])
                &&& forall|k: int|
                    0 <= k < i ==> !names_symbol(name@, #[trigger] symbol_names()[k])
            },
            None => forall|k: int|
                0 <= k < symbol_names().len() ==> !names_symbol(
                    name@,
                    #[trigger] symbol_names()[k],
                ),
        },
{
    let table = symbols();
    let ghost names = symbol_names();
    let mut i: usize = 0;
    while i < table.len()
        invariant
            i <= table@.len(),
            names == symbol_names(),
            names == table@.map_values(|s: &'static str| s@),
            forall|k: int| 0 <= k < i ==> !names_symbol(name@, #[trigger] names[k]),
        decreases table@.len() - i,
    {
        let symbol: &'static str = table[i];
        assert(names[i as int] == symbol@);
        let mut versioned = symbol.to_owned();
        versioned.append("@ALSA_0.9");
        if str_eq(name, symbol) || str_eq(name, versioned.as_str()) {
            return Some(i);
        }
        i = i + 1;
    }
    None
}

/// Whether loading this library is caught.
pub fn catches_library(path: &str) -> (b: bool)
    ensures
        b == occurs(path@, "libasound.so"@),
{
    contains(path, "libasound.so")
}

/// What a symbol of the caught library resolves to.
#[derive(Clone, Copy, Debug, PartialEq, Eq, Structural)]
pub enum Resolution {
    /// The address of the global configuration tree, which is empty.
    ConfigTree,
    /// The function with this number.
    Function(usize),
    /// Nothing: the lookup never falls through to the real library.
    Missing,
}

/// Resolve a symbol of the caught library.
pub fn resolve(name: &str) -> (r: Resolution)
    ensures
        match r {
            Resolution::ConfigTree => name@ == "snd_config"@,
            Resolution::Function(i) => {
                &&& name@ != "snd_config"@
                &&& i < symbol_names().len()
                &&& names_symbol(name@, symbol_names()[i as int])
                &&& forall|k: int|
                    0 <= k < i ==> !names_symbol(name@, #[trigger] symbol_names()[k])
            },
            Resolution::Missing => {
                &&& name@ != "snd_config"@
                &&& forall|k: int|
                    0 <= k < symbol_names().len() ==> !names_symbol(
                        name@,
                        #[trigger] symbol_names()[k],
                    )
            },
        },
{
    if str_eq(name, "snd_config") {
        return Resolution::ConfigTree;
    }
    match lookup(name) {
        Some(i) => Resolution::Function(i),
        None => Resolution::Missing,
    }
}

} // verus!
