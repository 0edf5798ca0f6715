//! The OHLC query operations as the caller sees them: query, classify any
//! failure, and wrap the outcome in the uniform envelope.

use vstd::prelude::*;
use vstd::string::*;

use crate::api::error::{ApiErrorWrapper, FailureCause};
use crate::api::models::{ApiError, ApiResponse, OhlcDateRangeRequest, OhlcResponse};
use crate::services::ohlc_service;
use crate::services::ohlc_service::{code_bars, range_bars};
use crate::store::Store;
use crate::timestamp::{datetime_fields, is_datetime_string};

verus! {

/// Returns every bar in the store, wrapped in a success envelope.
pub fn get_all_ohlc(store: &Store) -> (r: ApiResponse<OhlcResponse>)
    ensures
        r.code == 0,
        r.message@ == ApiError::Success.spec_message(),
        r.data matches Some(d) && d.data@ == store.ohlc_bars@,
{
    let data = ohlc_service::get_all_ohlc_data(store);
    ApiResponse::success(OhlcResponse { data })
}

/// Returns every bar of the instrument with this code, wrapped in a
/// success envelope. An unknown code yields a success envelope around an
/// empty array — never an error.
pub fn get_ohlc_by_symbol(store: &Store, symbol: &str) -> (r: ApiResponse<OhlcResponse>)
    ensures
        r.code == 0,
        r.message@ == ApiError::Success.spec_message(),
        r.data matches Some(d) && d.data@ == code_bars(*store, symbol@),
{
    let data = ohlc_service::get_ohlc_data_by_code(store, symbol);
    ApiResponse::success(OhlcResponse { data })
}

/// Returns the instrument's bars in the inclusive range [start, end] given
/// as date-time strings, in ascending timestamp order, wrapped in a
/// success envelope.
///
/// A start string that is not a well-formed `YYYY-MM-DD HH:MM:SS` reading
/// yields the invalid-date-format error envelope naming the start value;
/// otherwise a malformed end string yields the same for the end value. A
/// reversed range or an unknown code yields a success envelope around an
/// empty array — never an error.
pub fn get_ohlc_by_date_range(
    store: &Store,
    symbol: &str,
    params: &OhlcDateRangeRequest,
) -> (r: ApiResponse<OhlcResponse>)
    requires
        store.wf(),
    ensures
        !is_datetime_string(params.start@) ==> r.code == ApiError::InvalidDateFormat.spec_code()
            && r.data is None && r.message@ == "Invalid date format for start '"@ + params.start@
            + "'"@,
        is_datetime_string(params.start@) && !is_datetime_string(params.end@) ==> r.code
            == ApiError::InvalidDateFormat.spec_code() && r.data is None && r.message@
            == "Invalid date format for end '"@ + params.end@ + "'"@,
        is_datetime_string(params.start@) && is_datetime_string(params.end@) ==> {
            &&& r.code == 0
            &&& r.message@ == ApiError::Success.spec_message()
            &&& r.data matches Some(d) && d.data@.to_multiset() == range_bars(
                *store,
                symbol@,
                datetime_fields(params.start@).key(),
                datetime_fields(params.end@).key(),
            ).to_multiset() && (forall|i: int, j: int|
                0 <= i < j < d.data@.len() ==> d.data@[i].timestamp.key()
                    < d.data@[j].timestamp.key())
        },
{
    let start_date = match crate::timestamp::parse_datetime(params.start.as_str()) {
        Some(t) => t,
        None => {
            let mut detail = String::from_str("Invalid date format for start '");
            detail.append(params.start.as_str());
            detail.append("'");
            let wrapped = ApiErrorWrapper::new(FailureCause::DateParse, detail);
            return wrapped.into_envelope();
        },
    };
    let end_date = match crate::timestamp::parse_datetime(params.end.as_str()) {
        Some(t) => t,
        None => {
            let mut detail = String::from_str("Invalid date format for end '");
            detail.append(params.end.as_str());
            detail.append("'");
            let wrapped = ApiErrorWrapper::new(FailureCause::DateParse, detail);
            return wrapped.into_envelope();
        },
    };
    let data = ohlc_service::get_ohlc_data_by_date_range(store, symbol, start_date, end_date);
    ApiResponse::success(OhlcResponse { data })
}

} // verus!
