//! The order desk: it turns the engine's orders into requests to the venue
//! and the venue's replies into confirmations for the engine.
use vstd::prelude::*;
use crate::arith::{pow10, times_pow10};
use crate::fourier::QUOTE_DIGITS;
use crate::roostoo::{
    Decimal, OrderDetail, OrderType, PlaceOrderResponse, Request, RoostooClient, RoostooError,
};
use crate::strategy::Order;

verus! {

/// An order on its way to the venue, with the number of decimal digits that
/// one lot of its symbol stands for. The reply comes back to the engine as an
/// event.
pub struct OrderWithResponse {
    pub order: Order,
    pub precision: u64,
}

/// A price of `price` ticks per lot as a price per unit of the asset, in
/// units of the quote currency, where that is a 64-bit number of some
/// decimal digits: `price * 10^precision / 10^QUOTE_DIGITS`.
pub open spec fn wire_price(price: u64, precision: u64) -> Option<Decimal> {
    if precision <= QUOTE_DIGITS {
        Some(Decimal { units: price, digits: (QUOTE_DIGITS - precision) as u64 })
    } else if price * pow10((precision - QUOTE_DIGITS) as nat) <= u64::MAX {
        Some(
            Decimal {
                units: (price * pow10((precision - QUOTE_DIGITS) as nat)) as u64,
                digits: 0,
            },
        )
    } else {
        None
    }
}

/// The price per unit of the asset that stands for `price` ticks per lot.
pub fn price_per_unit(price: u64, precision: u64) -> (wire: Option<Decimal>)
    ensures
        wire == wire_price(price, precision),
{
    if precision <= QUOTE_DIGITS {
        return Some(Decimal { units: price, digits: QUOTE_DIGITS - precision });
    }
    match times_pow10(price, precision - QUOTE_DIGITS) {
        Some(units) => Some(Decimal { units, digits: 0 }),
        None => None,
    }
}

/// The order desk of one account.
pub struct OrderEngine {
    pub client: RoostooClient,
}

impl OrderEngine {
    /// A desk for the account with these keys, at the mock venue.
    pub fn build(api_key: String, api_secret: String) -> (desk: Self)
        ensures
            desk.client.base_url@ == "https://mock-api.roostoo.com"@,
            desk.client.api_key == api_key,
            desk.client.secret_key == api_secret,
    {
        Self { client: RoostooClient::new(api_key, api_secret) }
    }

    /// The request that places the order of `envelope`: the quantity goes
    /// out in units of the asset with the envelope's precision, a price in
    /// units of the quote currency. A limit order needs a price, and a price
    /// must be expressible.
    pub fn request(&self, envelope: &OrderWithResponse, timestamp: u64) -> (r: Result<
        Request,
        RoostooError,
    >)
        ensures
            match envelope.order.price {
                None => if envelope.order.order_type == OrderType::Limit {
                    (r matches Err(RoostooError::InvalidParameter(m)) && m@
                        == "LIMIT orders require a price"@)
                } else {
                    (r matches Ok(request) && request@ == self.client.order_request(
                        envelope.order.pair@,
                        envelope.order.side,
                        envelope.order.order_type,
                        Decimal { units: envelope.order.quantity, digits: envelope.precision },
                        None,
                        timestamp,
                    ))
                },
                Some(p) => match wire_price(p, envelope.precision) {
                    None => (r matches Err(RoostooError::InvalidParameter(m)) && m@
                        == "price out of range"@),
                    Some(wire) => (r matches Ok(request) && request@ == self.client.order_request(
                        envelope.order.pair@,
                        envelope.order.side,
                        envelope.order.order_type,
                        Decimal { units: envelope.order.quantity, digits: envelope.precision },
                        Some(wire),
                        timestamp,
                    )),
                },
            },
    {
        let price: Option<Decimal> = match envelope.order.price {
            None => None,
            Some(p) => match price_per_unit(p, envelope.precision) {
                Some(wire) => Some(wire),
                None => {
                    return Err(RoostooError::InvalidParameter("price out of range".to_owned()));
                },
            },
        };
        self.client.place_order(
            envelope.order.pair.as_str(),
            envelope.order.side,
            envelope.order.order_type,
            Decimal { units: envelope.order.quantity, digits: envelope.precision },
            price,
            timestamp,
        )
    }

    /// What goes back to the engine for the venue's reply: the detail of an
    /// accepted order, if the reply has one.
    pub fn confirmation(reply: Result<PlaceOrderResponse, RoostooError>) -> (detail: Option<
        OrderDetail,
    >)
        ensures
            detail == match reply {
                Ok(placed) => if placed.success {
                    placed.order_detail
                } else {
                    None
                },
                Err(_) => None,
            },
    {
        match reply {
            Ok(placed) => if placed.success {
                placed.order_detail
            } else {
                None
            },
            Err(_) => None,
        }
    }
}

} // verus!
