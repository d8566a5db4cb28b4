//! Listing the adapters: one query, whose answer is an adapter listing.

use crate::config::{adapter_views, AdapterInfo, AdapterInfoView, ConfigError, ConfigErrorView};
use crate::gateway::{decode_lossy, utf8_lossy, GatewayResult, GatewayResultView};
use crate::output::{decode_adapters, decoded_adapters, is_decoded_listing};
use vstd::prelude::*;

verus! {

/// The adapters that the answer to the listing query tells of. The query
/// must have run and succeeded, and its output must decode.
pub open spec fn adapters_listed(answer: GatewayResultView) -> Result<
    Seq<AdapterInfoView>,
    ConfigErrorView,
> {
    match answer {
        GatewayResultView::LaunchFailed(message) => Err(
            ConfigErrorView::GatewayLaunchFailure(message),
        ),
        GatewayResultView::Exited { success, stdout, stderr } => if success {
            decoded_adapters(utf8_lossy(stdout))
        } else {
            Err(ConfigErrorView::GatewayNonZeroExit(utf8_lossy(stderr)))
        },
    }
}

/// Reads the adapters from the answer to the query that
/// [`list_adapters_command`](crate::commands::list_adapters_command)
/// gives. Either all adapters of the listing are returned or an error.
pub fn get_network_adapters(answer: &GatewayResult) -> (r: Result<Vec<AdapterInfo>, ConfigError>)
    ensures
        r matches Ok(adapters) ==> adapters_listed(answer@) == Ok::<
            Seq<AdapterInfoView>,
            ConfigErrorView,
        >(adapter_views(adapters@)),
        r matches Err(e) ==> adapters_listed(answer@) == Err::<
            Seq<AdapterInfoView>,
            ConfigErrorView,
        >(e@),
        r matches Ok(adapters) ==> is_decoded_listing(
            adapter_views(adapters@),
            utf8_lossy(answer@->stdout),
        ),
{
    match answer {
        GatewayResult::LaunchFailed(message) => Err(
            ConfigError::GatewayLaunchFailure(message.clone()),
        ),
        GatewayResult::Exited { success, stdout, stderr } => {
            if *success {
                let text = decode_lossy(stdout);
                decode_adapters(text.as_str())
            } else {
                Err(ConfigError::GatewayNonZeroExit(decode_lossy(stderr)))
            }
        },
    }
}

} // verus!
