use vstd::prelude::*;

mod addr;
mod cycle;
mod laws;
mod protocol;
mod text;
mod verbosity;

pub use addr::{Ipv4, spec_sentinel};
pub use cycle::{Decision, LoopState, spec_decide, spec_record, spec_cycle, spec_run, spec_invoked, lemma_exec_cycle_agrees};
pub use laws::{lemma_unchanged_never_updates, lemma_monotone_convergence, lemma_first_cycle_forced_update, lemma_failure_isolation};
pub use protocol::{Credentials, FetchError, UpdateError, UpdateRequest, build_update_request, classify_update_response, resolve_body, spec_update_query, spec_is_success};
pub use verbosity::{Verbosity, verbosity_level, spec_verbosity};
pub use text::{ipv4_to_string, ipv4_chars, octet_chars, char_val, digit_of, parse_ipv4, spec_parse_ipv4, spec_scan_octet, spec_scan_dot_octet, lemma_scan_octet_sound, lemma_scan_octet_complete, lemma_parse_sound, lemma_parse_complete, lemma_parse_exact};
