use vstd::prelude::*;
use crate::price::{accepts_literal, literal_price, parse_price, Price};

verus! {

/// The price sources, in the order in which a cycle polls them.
#[derive(Clone, Copy, Debug, PartialEq, Eq, Structural)]
pub enum PriceSource {
    Bitcoin,
    Ethereum,
    SP500,
}

/// The crypto quote endpoint: both coins' prices in USD in one answer.
pub const COIN_QUOTE_URL: &'static str =
    "https://api.coingecko.com/api/v3/simple/price?ids=bitcoin,ethereum&vs_currencies=usd";

/// The chart endpoint of the S&P 500 index.
pub const INDEX_CHART_URL: &'static str = "https://query2.finance.yahoo.com/v8/finance/chart/%5EGSPC";

/// Why a source gave no price.
#[derive(Debug)]
pub enum FetchError {
    /// The server answered with a status outside 2xx.
    Status(u16),
    /// The request did not complete, or its body was not the expected JSON.
    Transport(String),
    /// The answer was well formed but held no price for this source.
    PriceNotFound,
    /// The price field held no decimal number that a `Price` can take.
    UnreadablePrice,
}

/// The two families of fetch failure.
#[derive(Clone, Copy, Debug, PartialEq, Eq, Structural)]
pub enum ErrorKind {
    /// The call itself failed: no connection, a status outside 2xx, or a
    /// body that is not the expected JSON.
    Transport,
    /// The call succeeded but the expected field is missing or unusable.
    DataShape,
}

impl FetchError {
    pub open spec fn spec_kind(&self) -> ErrorKind {
        match self {
            FetchError::Status(_) | FetchError::Transport(_) => ErrorKind::Transport,
            FetchError::PriceNotFound | FetchError::UnreadablePrice => ErrorKind::DataShape,
        }
    }

    /// Whether this is a failure of the call or of the data it returned.
    pub fn kind(&self) -> (r: ErrorKind)
        ensures
            r == self.spec_kind(),
    {
        match self {
            FetchError::Status(_) | FetchError::Transport(_) => ErrorKind::Transport,
            FetchError::PriceNotFound | FetchError::UnreadablePrice => ErrorKind::DataShape,
        }
    }
}

/// The crypto quote answer: the price literal of each coin that it holds.
#[derive(Debug)]
pub struct CoinQuotes {
    pub bitcoin: Option<String>,
    pub ethereum: Option<String>,
}

/// The chart answer: the `regularMarketPrice` literal of each chart result,
/// in the order of the answer.
#[derive(Debug)]
pub struct ChartQuotes {
    pub market_prices: Vec<String>,
}

/// A decoded answer of one of the two endpoints.
#[derive(Debug)]
pub enum Response {
    Coins(CoinQuotes),
    Chart(ChartQuotes),
}

pub open spec fn option_text(o: Option<String>) -> Option<Seq<char>> {
    match o {
        Some(t) => Some(t@),
        None => None,
    }
}

impl PriceSource {
    /// The order in which a cycle polls the sources.
    pub open spec fn registration_order() -> Seq<PriceSource> {
        seq![PriceSource::Bitcoin, PriceSource::Ethereum, PriceSource::SP500]
    }

    pub open spec fn spec_name(self) -> Seq<char> {
        match self {
            PriceSource::Bitcoin => seq!['B', 'i', 't', 'c', 'o', 'i', 'n'],
            PriceSource::Ethereum => seq!['E', 't', 'h', 'e', 'r', 'e', 'u', 'm'],
            PriceSource::SP500 => seq!['S', '&', 'P', ' ', '5', '0', '0'],
        }
    }

    /// The human-readable name.
    pub fn get_name(self) -> (r: &'static str)
        ensures
            r@ == self.spec_name(),
    {
        match self {
            PriceSource::Bitcoin => {
                proof {
                    reveal_strlit("Bitcoin");
                }
                "Bitcoin"
            },
            PriceSource::Ethereum => {
                proof {
                    reveal_strlit("Ethereum");
                }
                "Ethereum"
            },
            PriceSource::SP500 => {
                proof {
                    reveal_strlit("S&P 500");
                }
                "S&P 500"
            },
        }
    }

    pub open spec fn spec_endpoint(self) -> Seq<char> {
        match self {
            PriceSource::SP500 => INDEX_CHART_URL@,
            _ => COIN_QUOTE_URL@,
        }
    }

    /// The URL that this source's price is fetched from.
    pub fn endpoint(self) -> (r: &'static str)
        ensures
            r@ == self.spec_endpoint(),
    {
        match self {
            PriceSource::SP500 => INDEX_CHART_URL,
            _ => COIN_QUOTE_URL,
        }
    }

    /// Whether the answer is the crypto quote shape (else the chart shape).
    pub open spec fn spec_wants_coin_quotes(self) -> bool {
        self != PriceSource::SP500
    }

    /// Whether this source's endpoint answers with crypto quotes.
    pub fn wants_coin_quotes(self) -> (r: bool)
        ensures
            r == self.spec_wants_coin_quotes(),
    {
        match self {
            PriceSource::SP500 => false,
            _ => true,
        }
    }

    pub open spec fn spec_log_file(self) -> Seq<char> {
        match self {
            PriceSource::Bitcoin => seq![
                'b', 'i', 't', 'c', 'o', 'i', 'n', '_', 'p', 'r', 'i', 'c', 'e', 's', '.', 't',
                'x', 't',
            ],
            PriceSource::Ethereum => seq![
                'e', 't', 'h', 'e', 'r', 'e', 'u', 'm', '_', 'p', 'r', 'i', 'c', 'e', 's', '.',
                't', 'x', 't',
            ],
            PriceSource::SP500 => seq![
                's', 'p', '5', '0', '0', '_', 'p', 'r', 'i', 'c', 'e', 's', '.', 't', 'x', 't',
            ],
        }
    }

    /// The append-only log that this source's records go to.
    pub fn log_file(self) -> (r: &'static str)
        ensures
            r@ == self.spec_log_file(),
    {
        match self {
            PriceSource::Bitcoin => {
                proof {
                    reveal_strlit("bitcoin_prices.txt");
                }
                "bitcoin_prices.txt"
            },
            PriceSource::Ethereum => {
                proof {
                    reveal_strlit("ethereum_prices.txt");
                }
                "ethereum_prices.txt"
            },
            PriceSource::SP500 => {
                proof {
                    reveal_strlit("sp500_prices.txt");
                }
                "sp500_prices.txt"
            },
        }
    }

    /// The price literal that this source reads from an answer, if any: its
    /// coin's field of a crypto quote, or the first chart result.
    pub open spec fn price_field(self, resp: Response) -> Option<Seq<char>> {
        match (self, resp) {
            (PriceSource::Bitcoin, Response::Coins(q)) => option_text(q.bitcoin),
            (PriceSource::Ethereum, Response::Coins(q)) => option_text(q.ethereum),
            (PriceSource::SP500, Response::Chart(c)) => if c.market_prices@.len() > 0 {
                Some(c.market_prices@[0]@)
            } else {
                None
            },
            _ => None,
        }
    }

    /// What an answer yields for this source.
    pub open spec fn spec_decode(self, resp: Response) -> Result<Price, FetchError> {
        match self.price_field(resp) {
            None => Err(FetchError::PriceNotFound),
            Some(t) => if accepts_literal(t) {
                Ok(literal_price(t))
            } else {
                Err(FetchError::UnreadablePrice)
            },
        }
    }

    /// Reads this source's price out of an answer.
    pub fn decode_price(self, resp: &Response) -> (r: Result<Price, FetchError>)
        ensures
            r == self.spec_decode(*resp),
    {
        let field: Option<&String> = match (self, resp) {
            (PriceSource::Bitcoin, Response::Coins(q)) => q.bitcoin.as_ref(),
            (PriceSource::Ethereum, Response::Coins(q)) => q.ethereum.as_ref(),
            (PriceSource::SP500, Response::Chart(c)) => if c.market_prices.len() > 0 {
                Some(&c.market_prices[0])
            } else {
                None
            },
            _ => None,
        };
        match field {
            None => Err(FetchError::PriceNotFound),
            Some(t) => match parse_price(t.as_str()) {
                Some(p) => Ok(p),
                None => Err(FetchError::UnreadablePrice),
            },
        }
    }

    /// The outcome of one fetch: a failed call passes through unchanged, an
    /// answer is decoded.
    pub open spec fn spec_fetch_price(
        self,
        fetched: Result<Response, FetchError>,
    ) -> Result<Price, FetchError> {
        match fetched {
            Err(e) => Err(e),
            Ok(resp) => self.spec_decode(resp),
        }
    }

    /// The price that one fetch gives, from the call's result.
    pub fn fetch_price(self, fetched: Result<Response, FetchError>) -> (r: Result<
        Price,
        FetchError,
    >)
        ensures
            r == self.spec_fetch_price(fetched),
    {
        match fetched {
            Err(e) => Err(e),
            Ok(resp) => self.decode_price(&resp),
        }
    }
}

/// The sources in the order in which a cycle polls them.
pub fn registered_sources() -> (r: Vec<PriceSource>)
    ensures
        r@ == PriceSource::registration_order(),
{
    let r = vec![PriceSource::Bitcoin, PriceSource::Ethereum, PriceSource::SP500];
    assert(r@ =~= PriceSource::registration_order());
    r
}

} // verus!
