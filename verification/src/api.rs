//! Requests and responses of the order book's HTTP interface.
use vstd::prelude::*;

verus! {

/// A request to submit an order: the text form of a serialized SWAPP note.
#[derive(Clone, Debug)]
pub struct SubmitOrderRequest {
    pub note_data: String,
}

/// The answer to an order submission.
#[derive(Clone, Debug)]
pub struct SubmitOrderResponse {
    pub success: bool,
    pub order_id: String,
    pub message: String,
}

/// Query of the order book of a pair of assets.
#[derive(Clone, Debug)]
pub struct OrderBookQuery {
    pub base_asset: String,
    pub quote_asset: String,
}

/// Query of the orders of one user.
#[derive(Clone, Debug)]
pub struct UserOrdersQuery {
    pub user_id: String,
}

impl SubmitOrderResponse {
    /// The answer to an accepted order: success, its record identifier, and
    /// a note that the matching engine will process it.
    pub fn accepted(order_id: String) -> (r: SubmitOrderResponse)
        ensures
            r.success,
            r.order_id@ == order_id@,
            r.message@ == "Order submitted successfully. Matching engine will process automatically."@,
    {
        SubmitOrderResponse {
            success: true,
            order_id,
            message: "Order submitted successfully. Matching engine will process automatically.".to_owned(),
        }
    }

    /// The answer to a refused order: failure, no identifier, and the reason.
    pub fn rejected(message: String) -> (r: SubmitOrderResponse)
        ensures
            !r.success,
            r.order_id@ == Seq::<char>::empty(),
            r.message@ == message@,
    {
        SubmitOrderResponse { success: false, order_id: String::new(), message }
    }
}

} // verus!
