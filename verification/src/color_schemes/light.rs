//! Light color schemes.

use vstd::prelude::*;
use super::{scheme, Scheme};

verus! {

pub fn pencil() -> (s: Scheme)
    ensures
        s == super::spec_scheme(
            0x424242,
            0xf1f1f1,
            [0x212121, 0xc30771, 0x10a778, 0xa89c14, 0x008ec4, 0x523c79, 0x20a5ba, 0xe0e0e0],
            [0x212121, 0xfb007a, 0x5fd7af, 0xf3e430, 0x20bbfc, 0x6855de, 0x4fb8cc, 0xf1f1f1],
        ),
{
    scheme(
        0x424242,
        0xf1f1f1,
        [0x212121, 0xc30771, 0x10a778, 0xa89c14, 0x008ec4, 0x523c79, 0x20a5ba, 0xe0e0e0],
        [0x212121, 0xfb007a, 0x5fd7af, 0xf3e430, 0x20bbfc, 0x6855de, 0x4fb8cc, 0xf1f1f1],
    )
}

pub fn seabird() -> (s: Scheme)
    ensures
        s == super::spec_scheme(
            0xffffff,
            0x61707a,
            [0x0b141a, 0xff4053, 0x11ab00, 0xbf8c00, 0x0099ff, 0x9854ff, 0x00a5ab, 0xffffff],
            [0x0b141a, 0xff4053, 0x11ab00, 0xbf8c00, 0x0099ff, 0x9854ff, 0x00a5ab, 0xffffff],
        ),
{
    scheme(
        0xffffff,
        0x61707a,
        [0x0b141a, 0xff4053, 0x11ab00, 0xbf8c00, 0x0099ff, 0x9854ff, 0x00a5ab, 0xffffff],
        [0x0b141a, 0xff4053, 0x11ab00, 0xbf8c00, 0x0099ff, 0x9854ff, 0x00a5ab, 0xffffff],
    )
}

pub fn solarized() -> (s: Scheme)
    ensures
        s == super::spec_scheme(
            0xfdf6e3,
            0x657b83,
            [0x073642, 0xdc322f, 0x859900, 0xb58900, 0x268bd2, 0xd33682, 0x2aa198, 0xeee8d5],
            [0x002b36, 0xcb4b16, 0x586e75, 0x657b83, 0x839496, 0x6c71c4, 0x93a1a1, 0xfdf6e3],
        ),
{
    scheme(
        0xfdf6e3,
        0x657b83,
        [0x073642, 0xdc322f, 0x859900, 0xb58900, 0x268bd2, 0xd33682, 0x2aa198, 0xeee8d5],
        [0x002b36, 0xcb4b16, 0x586e75, 0x657b83, 0x839496, 0x6c71c4, 0x93a1a1, 0xfdf6e3],
    )
}

// https://github.com/NLKNguyen/papercolor-theme/blob/master/colors/PaperColor.vim
pub fn paper() -> (s: Scheme)
    ensures
        s == super::spec_scheme(
            0xffffff,
            0x000000,
            [0xeeeeee, 0xaf0000, 0x008700, 0x5f8700, 0x0087af, 0x878787, 0x005f87, 0x444444],
            [0xbcbcbc, 0xd70000, 0xd70087, 0x8700af, 0xd75f00, 0xd75f00, 0x005faf, 0x005f87],
        ),
{
    scheme(
        0xffffff,
        0x000000,
        [0xeeeeee, 0xaf0000, 0x008700, 0x5f8700, 0x0087af, 0x878787, 0x005f87, 0x444444],
        [0xbcbcbc, 0xd70000, 0xd70087, 0x8700af, 0xd75f00, 0xd75f00, 0x005faf, 0x005f87],
    )
}

} // verus!
