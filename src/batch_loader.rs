use vstd::prelude::*;
use crate::cached_client::ApiError;
use crate::state::{AppAction, AppState, BatchQuery, SongBatch};

verus! {

/// The character of the decimal digit `d`.
pub open spec fn digit(d: int) -> char {
    if d == 0 {
        '0'
    } else if d == 1 {
        '1'
    } else if d == 2 {
        '2'
    } else if d == 3 {
        '3'
    } else if d == 4 {
        '4'
    } else if d == 5 {
        '5'
    } else if d == 6 {
        '6'
    } else if d == 7 {
        '7'
    } else if d == 8 {
        '8'
    } else {
        '9'
    }
}

/// `n` written in decimal, without leading zeros.
pub open spec fn decimal(n: nat) -> Seq<char>
    decreases n,
{
    if n < 10 {
        seq![digit(n as int)]
    } else {
        decimal(n / 10).push(digit((n % 10) as int))
    }
}

fn digit_str(d: usize) -> (r: &'static str)
    requires
        d < 10,
    ensures
        r@ == seq![digit(d as int)],
{
    let r = if d == 0 {
        proof {
            reveal_strlit("0");
        }
        "0"
    } else if d == 1 {
        proof {
            reveal_strlit("1");
        }
        "1"
    } else if d == 2 {
        proof {
            reveal_strlit("2");
        }
        "2"
    } else if d == 3 {
        proof {
            reveal_strlit("3");
        }
        "3"
    } else if d == 4 {
        proof {
            reveal_strlit("4");
        }
        "4"
    } else if d == 5 {
        proof {
            reveal_strlit("5");
        }
        "5"
    } else if d == 6 {
        proof {
            reveal_strlit("6");
        }
        "6"
    } else if d == 7 {
        proof {
            reveal_strlit("7");
        }
        "7"
    } else if d == 8 {
        proof {
            reveal_strlit("8");
        }
        "8"
    } else {
        proof {
            reveal_strlit("9");
        }
        "9"
    };
    assert(r@ =~= seq![digit(d as int)]);
    r
}

fn append_decimal(s: &mut String, n: usize)
    ensures
        final(s)@ == old(s)@ + decimal(n as nat),
    decreases n,
{
    if n >= 10 {
        append_decimal(s, n / 10);
    }
    s.append(digit_str(n % 10));
    assert(s@ =~= old(s)@ + decimal(n as nat));
}

/// The fingerprint under which the page `q` is requested and cached:
/// `<source>?offset=<offset>&limit=<batch_size>`.
pub fn page_fingerprint(q: &BatchQuery) -> (r: String)
    ensures
        r@ == q.source@ + "?offset="@ + decimal(q.batch.offset as nat) + "&limit="@ + decimal(
            q.batch.batch_size as nat,
        ),
{
    let mut r = q.source.clone();
    r.append("?offset=");
    append_decimal(&mut r, q.batch.offset);
    r.append("&limit=");
    append_decimal(&mut r, q.batch.batch_size);
    r
}

/// A copy of `q`.
pub fn copy_query(q: &BatchQuery) -> (r: BatchQuery)
    ensures
        r == *q,
{
    BatchQuery { source: q.source.clone(), batch: q.batch }
}

/// The page to fetch next, read from the state's cursor; `None` once the
/// listing is exhausted or when no listing is being paged.
pub fn next_query(state: &AppState) -> (r: Option<BatchQuery>)
    ensures
        r == state.pagination_cursor,
{
    match &state.pagination_cursor {
        Some(q) => Some(copy_query(q)),
        None => None,
    }
}

/// The action that a finished page fetch for `query` produces: the page,
/// appended to the playlist, on success; nothing on failure, so that the cursor
/// stays where it was and the next load retries the same page.
pub fn page_loaded(query: &BatchQuery, result: Result<SongBatch, ApiError>) -> (r: Option<AppAction>)
    ensures
        match result {
            Ok(b) => r == Some(AppAction::LoadPagedSongs(query.source, b)),
            Err(_) => r is None,
        },
{
    match result {
        Ok(b) => Some(AppAction::LoadPagedSongs(query.source.clone(), b)),
        Err(_) => None,
    }
}

} // verus!
