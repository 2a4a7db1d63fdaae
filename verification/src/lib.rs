//! Core state of a multi-session debugger: the session registry, the
//! per-session breakpoint catalog, the execution controller, and the
//! bounded event buffer with its three read strategies (snapshot poll,
//! wait cursor, subscription cursor).
//!
//! The runtime bridge that instruments the debuggee, the RPC transport,
//! and the terminal front end live outside this crate; they hand plain
//! values in and take plain values back.

mod breakpoints;
mod buffer;
mod cli;
mod debug_core;
mod errors;
mod events;
mod sessions;
mod threads;

pub use breakpoints::BpLocation;
pub use breakpoints::Breakpoint;
pub use breakpoints::ExceptionBreakpoint;
pub use breakpoints::bp_ids_unique;
pub use breakpoints::bp_index_of;
pub use breakpoints::bump_hit;
pub use breakpoints::bump_hit_by_id;
pub use breakpoints::clone_opt_string;
pub use breakpoints::ex_list_for_session;
pub use breakpoints::ex_owned_by;
pub use breakpoints::ex_remove_by_id;
pub use breakpoints::ex_remove_for_session;
pub use breakpoints::ex_remove_id;
pub use breakpoints::ex_remove_session;
pub use breakpoints::find_breakpoint;
pub use breakpoints::find_exception_breakpoint;
pub use breakpoints::find_exception_by_class;
pub use breakpoints::lemma_bp_index_found;
pub use breakpoints::lemma_breakpoint_lifecycle;
pub use breakpoints::lemma_bump_hit_shape;
pub use breakpoints::lemma_ex_remove_id_wf;
pub use breakpoints::lemma_ex_remove_session_owns_nothing;
pub use breakpoints::lemma_ex_remove_session_wf;
pub use breakpoints::lemma_last_transition_wins;
pub use breakpoints::lemma_owned_push;
pub use breakpoints::lemma_remove_absent;
pub use breakpoints::lemma_remove_id_wf;
pub use breakpoints::lemma_remove_session_owns_nothing;
pub use breakpoints::lemma_remove_session_wf;
pub use breakpoints::lemma_set_enabled_absent;
pub use breakpoints::lemma_set_enabled_shape;
pub use breakpoints::list_for_session;
pub use breakpoints::owned_by;
pub use breakpoints::remove_by_id;
pub use breakpoints::remove_for_session;
pub use breakpoints::remove_id;
pub use breakpoints::remove_session;
pub use breakpoints::set_enabled;
pub use breakpoints::set_enabled_by_id;
pub use buffer::BufView;
pub use buffer::EventBuffer;
pub use buffer::EventInfo;
pub use buffer::filtered;
pub use buffer::ingest;
pub use buffer::lemma_filtered_empty_filter;
pub use buffer::lemma_filtered_increasing;
pub use buffer::lemma_filtered_len;
pub use buffer::lemma_filtered_membership;
pub use buffer::lemma_ingest_profile;
pub use buffer::lemma_newer_filter_commute;
pub use buffer::lemma_newer_increasing;
pub use buffer::lemma_newer_membership;
pub use buffer::lemma_overflow_evicts_oldest;
pub use buffer::lemma_read_modes_agree;
pub use buffer::lemma_wait_empty_iff_none_newer;
pub use buffer::newer;
pub use buffer::poll_window;
pub use buffer::push_model;
pub use buffer::strictly_increasing;
pub use cli::BreakpointCommands;
pub use cli::Config;
pub use cli::ExceptionCommands;
pub use cli::ExecCommands;
pub use cli::FrameCommands;
pub use cli::Output;
pub use cli::OutputFormat;
pub use cli::ServerAddr;
pub use cli::ServerCommands;
pub use cli::SessionCommands;
pub use cli::ThreadCommands;
pub use cli::VarCommands;
pub use cli::choose_breakpoint_location;
pub use cli::default_server;
pub use cli::digit_val;
pub use cli::digits_val;
pub use cli::is_digit;
pub use cli::is_prefix_of;
pub use cli::parse_server_addr;
pub use cli::parse_u64;
pub use cli::step_depth_from_flags;
pub use cli::str_has_prefix;
pub use debug_core::AttachOutcome;
pub use debug_core::DebugCore;
pub use debug_core::SessionState;
pub use debug_core::Subscription;
pub use debug_core::lemma_detach_cascades;
pub use debug_core::lemma_session_read_modes_agree;
pub use debug_core::lemma_unique_after_update;
pub use debug_core::lemma_update_session_wf;
pub use debug_core::session_ids_unique;
pub use debug_core::spec_active_after_removal;
pub use errors::ErrorInfo;
pub use errors::ErrorKind;
pub use errors::StatusResponse;
pub use errors::error_code;
pub use errors::error_code_view;
pub use errors::error_info;
pub use errors::error_message;
pub use errors::error_message_view;
pub use errors::status_response;
pub use events::DebugEvent;
pub use events::EventDetails;
pub use events::EventKind;
pub use events::SourceLocation;
pub use events::kind_name;
pub use events::kind_name_view;
pub use events::lemma_kind_name_round_trip;
pub use events::matches_filter;
pub use events::parse_filter;
pub use events::parse_kind;
pub use events::spec_matches_filter;
pub use events::spec_parse_filter;
pub use events::spec_parse_kind;
pub use sessions::ConnState;
pub use sessions::Session;
pub use sessions::TargetDesc;
pub use sessions::dec_str;
pub use sessions::digit_char;
pub use sessions::fresh_session_id;
pub use sessions::u64_to_dec;
pub use threads::FrameInfo;
pub use threads::StepDepth;
pub use threads::StepRequest;
pub use threads::StepSize;
pub use threads::ThreadInfo;
pub use threads::ThreadStatus;
pub use threads::VarKind;
pub use threads::Variable;
pub use threads::clone_threads;
pub use threads::filter_suspended;
pub use threads::find_thread;
pub use threads::has_thread;
pub use threads::lemma_remove_thread_wf;
pub use threads::lemma_thread_at_found;
pub use threads::lemma_set_all_thread_status_wf;
pub use threads::lemma_set_thread_status_wf;
pub use threads::remove_thread;
pub use threads::remove_thread_by_id;
pub use threads::set_all_status;
pub use threads::set_all_thread_status;
pub use threads::set_status_by_id;
pub use threads::set_thread_status;
pub use threads::spec_with_status;
pub use threads::suspended_only;
pub use threads::thread_at;
