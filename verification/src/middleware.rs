use vstd::prelude::*;
use vstd::string::StrSliceExecFns;

use crate::errors::AuthError;
use crate::token::{verify_model, Claims, ClaimsView, TokenCodec};

verus! {

/// The token carried by a bearer authorization header: present exactly when
/// the value starts with the bearer scheme, and then everything after it.
pub open spec fn bearer_token(h: Seq<char>) -> Option<Seq<char>> {
    if h.len() >= 7 && h.subrange(0, 7) == "Bearer "@ {
        Some(h.subrange(7, h.len() as int))
    } else {
        None
    }
}

/// The filter in front of protected routes. A missing header, a header
/// without the bearer scheme, and a token the codec rejects all collapse to
/// the one answer `Unauthenticated`; only a token the codec accepts lets the
/// request through, carrying the verified claims. No other effect.
pub fn auth_middleware(codec: &TokenCodec, authorization: Option<&str>, now: usize) -> (r: Result<
    Claims,
    AuthError,
>)
    ensures
        r is Err ==> r == Err::<Claims, AuthError>(AuthError::Unauthenticated),
        match authorization {
            None => r is Err,
            Some(h) => match bearer_token(h@) {
                None => r is Err,
                Some(tok) => {
                    &&& match r {
                        Ok(c) => verify_model(tok, codec@, now) == Ok::<ClaimsView, AuthError>(c@),
                        Err(_) => true,
                    }
                    &&& verify_model(tok, codec@, now) is Err ==> r is Err
                },
            },
        },
{
    let h = match authorization {
        Some(h) => h,
        None => {
            return Err(AuthError::Unauthenticated);
        },
    };
    let n = h.unicode_len();
    if n < 7 {
        return Err(AuthError::Unauthenticated);
    }
    let c0 = h.get_char(0);
    let c1 = h.get_char(1);
    let c2 = h.get_char(2);
    let c3 = h.get_char(3);
    let c4 = h.get_char(4);
    let c5 = h.get_char(5);
    let c6 = h.get_char(6);
    if c0 != 'B' || c1 != 'e' || c2 != 'a' || c3 != 'r' || c4 != 'e' || c5 != 'r' || c6 != ' ' {
        proof {
            reveal_strlit("Bearer ");
            if h@.subrange(0, 7) == "Bearer "@ {
                assert(h@[0] == 'B' && h@[1] == 'e' && h@[2] == 'a' && h@[3] == 'r' && h@[4] == 'e'
                    && h@[5] == 'r' && h@[6] == ' ') by {
                    assert(forall|i: int|
                        0 <= i < 7 ==> h@.subrange(0, 7)[i] == #[trigger] h@[i]);
                }
            }
        }
        return Err(AuthError::Unauthenticated);
    }
    proof {
        reveal_strlit("Bearer ");
        assert(h@.subrange(0, 7) =~= "Bearer "@);
    }
    let token = h.substring_char(7, n);
    match codec.verify(token, now) {
        Ok(c) => Ok(c),
        Err(_) => Err(AuthError::Unauthenticated),
    }
}

} // verus!
