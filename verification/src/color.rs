use vstd::prelude::*;

verus! {

/// Fixed-point scale: the linear-light value 1.0 is represented as 65536.
pub const LINEAR_ONE: u32 = 65536;

/// Linear-light value of the encoded (gamma-compressed) channel value `i`,
/// on the fixed-point scale where 1.0 is 65536. These are the values of the
/// standard piecewise sRGB transfer function (linear segment below an encoded
/// value of about 0.0404, power law with exponent 2.4 above it), sampled at
/// the 256 representable encoded channel values and rounded to the scale.
#[verifier::opaque]
pub open spec fn linear_of(i: int) -> int {
    if i == 0 { 0 } else
    if i == 1 { 20 } else
    if i == 2 { 40 } else
    if i == 3 { 60 } else
    if i == 4 { 80 } else
    if i == 5 { 99 } else
    if i == 6 { 119 } else
    if i == 7 { 139 } else
    if i == 8 { 159 } else
    if i == 9 { 179 } else
    if i == 10 { 199 } else
    if i == 11 { 219 } else
    if i == 12 { 241 } else
    if i == 13 { 264 } else
    if i == 14 { 288 } else
    if i == 15 { 313 } else
    if i == 16 { 340 } else
    if i == 17 { 367 } else
    if i == 18 { 396 } else
    if i == 19 { 427 } else
    if i == 20 { 458 } else
    if i == 21 { 491 } else
    if i == 22 { 526 } else
    if i == 23 { 562 } else
    if i == 24 { 599 } else
    if i == 25 { 637 } else
    if i == 26 { 677 } else
    if i == 27 { 718 } else
    if i == 28 { 761 } else
    if i == 29 { 805 } else
    if i == 30 { 851 } else
    if i == 31 { 898 } else
    if i == 32 { 947 } else
    if i == 33 { 997 } else
    if i == 34 { 1048 } else
    if i == 35 { 1101 } else
    if i == 36 { 1156 } else
    if i == 37 { 1212 } else
    if i == 38 { 1270 } else
    if i == 39 { 1330 } else
    if i == 40 { 1391 } else
    if i == 41 { 1453 } else
    if i == 42 { 1517 } else
    if i == 43 { 1583 } else
    if i == 44 { 1651 } else
    if i == 45 { 1720 } else
    if i == 46 { 1791 } else
    if i == 47 { 1863 } else
    if i == 48 { 1937 } else
    if i == 49 { 2013 } else
    if i == 50 { 2090 } else
    if i == 51 { 2170 } else
    if i == 52 { 2250 } else
    if i == 53 { 2333 } else
    if i == 54 { 2418 } else
    if i == 55 { 2504 } else
    if i == 56 { 2592 } else
    if i == 57 { 2681 } else
    if i == 58 { 2773 } else
    if i == 59 { 2866 } else
    if i == 60 { 2961 } else
    if i == 61 { 3058 } else
    if i == 62 { 3157 } else
    if i == 63 { 3258 } else
    if i == 64 { 3360 } else
    if i == 65 { 3464 } else
    if i == 66 { 3570 } else
    if i == 67 { 3678 } else
    if i == 68 { 3788 } else
    if i == 69 { 3900 } else
    if i == 70 { 4014 } else
    if i == 71 { 4129 } else
    if i == 72 { 4247 } else
    if i == 73 { 4366 } else
    if i == 74 { 4488 } else
    if i == 75 { 4611 } else
    if i == 76 { 4736 } else
    if i == 77 { 4864 } else
    if i == 78 { 4993 } else
    if i == 79 { 5124 } else
    if i == 80 { 5257 } else
    if i == 81 { 5392 } else
    if i == 82 { 5530 } else
    if i == 83 { 5669 } else
    if i == 84 { 5810 } else
    if i == 85 { 5953 } else
    if i == 86 { 6099 } else
    if i == 87 { 6246 } else
    if i == 88 { 6395 } else
    if i == 89 { 6547 } else
    if i == 90 { 6701 } else
    if i == 91 { 6856 } else
    if i == 92 { 7014 } else
    if i == 93 { 7174 } else
    if i == 94 { 7336 } else
    if i == 95 { 7500 } else
    if i == 96 { 7666 } else
    if i == 97 { 7834 } else
    if i == 98 { 8004 } else
    if i == 99 { 8177 } else
    if i == 100 { 8352 } else
    if i == 101 { 8529 } else
    if i == 102 { 8708 } else
    if i == 103 { 8889 } else
    if i == 104 { 9072 } else
    if i == 105 { 9258 } else
    if i == 106 { 9446 } else
    if i == 107 { 9636 } else
    if i == 108 { 9828 } else
    if i == 109 { 10022 } else
    if i == 110 { 10219 } else
    if i == 111 { 10418 } else
    if i == 112 { 10619 } else
    if i == 113 { 10822 } else
    if i == 114 { 11028 } else
    if i == 115 { 11236 } else
    if i == 116 { 11446 } else
    if i == 117 { 11658 } else
    if i == 118 { 11873 } else
    if i == 119 { 12090 } else
    if i == 120 { 12309 } else
    if i == 121 { 12531 } else
    if i == 122 { 12754 } else
    if i == 123 { 12981 } else
    if i == 124 { 13209 } else
    if i == 125 { 13440 } else
    if i == 126 { 13673 } else
    if i == 127 { 13909 } else
    if i == 128 { 14147 } else
    if i == 129 { 14387 } else
    if i == 130 { 14629 } else
    if i == 131 { 14874 } else
    if i == 132 { 15122 } else
    if i == 133 { 15372 } else
    if i == 134 { 15624 } else
    if i == 135 { 15878 } else
    if i == 136 { 16135 } else
    if i == 137 { 16394 } else
    if i == 138 { 16656 } else
    if i == 139 { 16920 } else
    if i == 140 { 17187 } else
    if i == 141 { 17456 } else
    if i == 142 { 17727 } else
    if i == 143 { 18001 } else
    if i == 144 { 18278 } else
    if i == 145 { 18556 } else
    if i == 146 { 18838 } else
    if i == 147 { 19121 } else
    if i == 148 { 19408 } else
    if i == 149 { 19696 } else
    if i == 150 { 19988 } else
    if i == 151 { 20281 } else
    if i == 152 { 20578 } else
    if i == 153 { 20876 } else
    if i == 154 { 21178 } else
    if i == 155 { 21481 } else
    if i == 156 { 21788 } else
    if i == 157 { 22096 } else
    if i == 158 { 22408 } else
    if i == 159 { 22722 } else
    if i == 160 { 23038 } else
    if i == 161 { 23357 } else
    if i == 162 { 23679 } else
    if i == 163 { 24003 } else
    if i == 164 { 24329 } else
    if i == 165 { 24659 } else
    if i == 166 { 24991 } else
    if i == 167 { 25325 } else
    if i == 168 { 25662 } else
    if i == 169 { 26002 } else
    if i == 170 { 26344 } else
    if i == 171 { 26689 } else
    if i == 172 { 27036 } else
    if i == 173 { 27387 } else
    if i == 174 { 27739 } else
    if i == 175 { 28095 } else
    if i == 176 { 28453 } else
    if i == 177 { 28813 } else
    if i == 178 { 29177 } else
    if i == 179 { 29543 } else
    if i == 180 { 29911 } else
    if i == 181 { 30283 } else
    if i == 182 { 30657 } else
    if i == 183 { 31033 } else
    if i == 184 { 31413 } else
    if i == 185 { 31795 } else
    if i == 186 { 32180 } else
    if i == 187 { 32567 } else
    if i == 188 { 32957 } else
    if i == 189 { 33350 } else
    if i == 190 { 33746 } else
    if i == 191 { 34144 } else
    if i == 192 { 34545 } else
    if i == 193 { 34949 } else
    if i == 194 { 35355 } else
    if i == 195 { 35765 } else
    if i == 196 { 36177 } else
    if i == 197 { 36591 } else
    if i == 198 { 37009 } else
    if i == 199 { 37429 } else
    if i == 200 { 37852 } else
    if i == 201 { 38278 } else
    if i == 202 { 38707 } else
    if i == 203 { 39138 } else
    if i == 204 { 39572 } else
    if i == 205 { 40009 } else
    if i == 206 { 40449 } else
    if i == 207 { 40892 } else
    if i == 208 { 41337 } else
    if i == 209 { 41786 } else
    if i == 210 { 42237 } else
    if i == 211 { 42691 } else
    if i == 212 { 43147 } else
    if i == 213 { 43607 } else
    if i == 214 { 44069 } else
    if i == 215 { 44534 } else
    if i == 216 { 45003 } else
    if i == 217 { 45474 } else
    if i == 218 { 45947 } else
    if i == 219 { 46424 } else
    if i == 220 { 46904 } else
    if i == 221 { 47386 } else
    if i == 222 { 47871 } else
    if i == 223 { 48360 } else
    if i == 224 { 48851 } else
    if i == 225 { 49345 } else
    if i == 226 { 49842 } else
    if i == 227 { 50342 } else
    if i == 228 { 50844 } else
    if i == 229 { 51350 } else
    if i == 230 { 51859 } else
    if i == 231 { 52370 } else
    if i == 232 { 52884 } else
    if i == 233 { 53402 } else
    if i == 234 { 53922 } else
    if i == 235 { 54445 } else
    if i == 236 { 54972 } else
    if i == 237 { 55501 } else
    if i == 238 { 56033 } else
    if i == 239 { 56568 } else
    if i == 240 { 57106 } else
    if i == 241 { 57647 } else
    if i == 242 { 58191 } else
    if i == 243 { 58738 } else
    if i == 244 { 59288 } else
    if i == 245 { 59841 } else
    if i == 246 { 60397 } else
    if i == 247 { 60956 } else
    if i == 248 { 61518 } else
    if i == 249 { 62083 } else
    if i == 250 { 62651 } else
    if i == 251 { 63222 } else
    if i == 252 { 63796 } else
    if i == 253 { 64373 } else
    if i == 254 { 64953 } else
    { 65536 }
}

/// Decode one encoded channel value to linear light (fixed point, 65536 = 1.0).
pub fn to_linear(e: u8) -> (r: u32)
    ensures
        r == linear_of(e as int),
        r <= LINEAR_ONE,
{
    let r: u32 = match e {
        0 => 0,
        1 => 20,
        2 => 40,
        3 => 60,
        4 => 80,
        5 => 99,
        6 => 119,
        7 => 139,
        8 => 159,
        9 => 179,
        10 => 199,
        11 => 219,
        12 => 241,
        13 => 264,
        14 => 288,
        15 => 313,
        16 => 340,
        17 => 367,
        18 => 396,
        19 => 427,
        20 => 458,
        21 => 491,
        22 => 526,
        23 => 562,
        24 => 599,
        25 => 637,
        26 => 677,
        27 => 718,
        28 => 761,
        29 => 805,
        30 => 851,
        31 => 898,
        32 => 947,
        33 => 997,
        34 => 1048,
        35 => 1101,
        36 => 1156,
        37 => 1212,
        38 => 1270,
        39 => 1330,
        40 => 1391,
        41 => 1453,
        42 => 1517,
        43 => 1583,
        44 => 1651,
        45 => 1720,
        46 => 1791,
        47 => 1863,
        48 => 1937,
        49 => 2013,
        50 => 2090,
        51 => 2170,
        52 => 2250,
        53 => 2333,
        54 => 2418,
        55 => 2504,
        56 => 2592,
        57 => 2681,
        58 => 2773,
        59 => 2866,
        60 => 2961,
        61 => 3058,
        62 => 3157,
        63 => 3258,
        64 => 3360,
        65 => 3464,
        66 => 3570,
        67 => 3678,
        68 => 3788,
        69 => 3900,
        70 => 4014,
        71 => 4129,
        72 => 4247,
        73 => 4366,
        74 => 4488,
        75 => 4611,
        76 => 4736,
        77 => 4864,
        78 => 4993,
        79 => 5124,
        80 => 5257,
        81 => 5392,
        82 => 5530,
        83 => 5669,
        84 => 5810,
        85 => 5953,
        86 => 6099,
        87 => 6246,
        88 => 6395,
        89 => 6547,
        90 => 6701,
        91 => 6856,
        92 => 7014,
        93 => 7174,
        94 => 7336,
        95 => 7500,
        96 => 7666,
        97 => 7834,
        98 => 8004,
        99 => 8177,
        100 => 8352,
        101 => 8529,
        102 => 8708,
        103 => 8889,
        104 => 9072,
        105 => 9258,
        106 => 9446,
        107 => 9636,
        108 => 9828,
        109 => 10022,
        110 => 10219,
        111 => 10418,
        112 => 10619,
        113 => 10822,
        114 => 11028,
        115 => 11236,
        116 => 11446,
        117 => 11658,
        118 => 11873,
        119 => 12090,
        120 => 12309,
        121 => 12531,
        122 => 12754,
        123 => 12981,
        124 => 13209,
        125 => 13440,
        126 => 13673,
        127 => 13909,
        128 => 14147,
        129 => 14387,
        130 => 14629,
        131 => 14874,
        132 => 15122,
        133 => 15372,
        134 => 15624,
        135 => 15878,
        136 => 16135,
        137 => 16394,
        138 => 16656,
        139 => 16920,
        140 => 17187,
        141 => 17456,
        142 => 17727,
        143 => 18001,
        144 => 18278,
        145 => 18556,
        146 => 18838,
        147 => 19121,
        148 => 19408,
        149 => 19696,
        150 => 19988,
        151 => 20281,
        152 => 20578,
        153 => 20876,
        154 => 21178,
        155 => 21481,
        156 => 21788,
        157 => 22096,
        158 => 22408,
        159 => 22722,
        160 => 23038,
        161 => 23357,
        162 => 23679,
        163 => 24003,
        164 => 24329,
        165 => 24659,
        166 => 24991,
        167 => 25325,
        168 => 25662,
        169 => 26002,
        170 => 26344,
        171 => 26689,
        172 => 27036,
        173 => 27387,
        174 => 27739,
        175 => 28095,
        176 => 28453,
        177 => 28813,
        178 => 29177,
        179 => 29543,
        180 => 29911,
        181 => 30283,
        182 => 30657,
        183 => 31033,
        184 => 31413,
        185 => 31795,
        186 => 32180,
        187 => 32567,
        188 => 32957,
        189 => 33350,
        190 => 33746,
        191 => 34144,
        192 => 34545,
        193 => 34949,
        194 => 35355,
        195 => 35765,
        196 => 36177,
        197 => 36591,
        198 => 37009,
        199 => 37429,
        200 => 37852,
        201 => 38278,
        202 => 38707,
        203 => 39138,
        204 => 39572,
        205 => 40009,
        206 => 40449,
        207 => 40892,
        208 => 41337,
        209 => 41786,
        210 => 42237,
        211 => 42691,
        212 => 43147,
        213 => 43607,
        214 => 44069,
        215 => 44534,
        216 => 45003,
        217 => 45474,
        218 => 45947,
        219 => 46424,
        220 => 46904,
        221 => 47386,
        222 => 47871,
        223 => 48360,
        224 => 48851,
        225 => 49345,
        226 => 49842,
        227 => 50342,
        228 => 50844,
        229 => 51350,
        230 => 51859,
        231 => 52370,
        232 => 52884,
        233 => 53402,
        234 => 53922,
        235 => 54445,
        236 => 54972,
        237 => 55501,
        238 => 56033,
        239 => 56568,
        240 => 57106,
        241 => 57647,
        242 => 58191,
        243 => 58738,
        244 => 59288,
        245 => 59841,
        246 => 60397,
        247 => 60956,
        248 => 61518,
        249 => 62083,
        250 => 62651,
        251 => 63222,
        252 => 63796,
        253 => 64373,
        254 => 64953,
        _ => 65536,
    };
    proof {
        reveal(linear_of);
        lemma_linear_range();
    }
    r
}

/// Every table value lies on the fixed-point scale [0, 65536].
pub proof fn lemma_linear_range()
    ensures
        forall|i: int| 0 <= i < 256 ==> 0 <= #[trigger] linear_of(i) <= LINEAR_ONE,
{
    reveal(linear_of);
}

/// The decoding table is strictly increasing from one encoded value to the next.
pub proof fn lemma_linear_step_mono()
    ensures
        forall|i: int| 0 <= i < 255 ==> #[trigger] linear_of(i) < linear_of(i + 1),
{
    reveal(linear_of);
}


/// Distance between the linear value of encoded index `i` and the target `x`.
pub open spec fn linear_dist(i: int, x: int) -> int {
    if linear_of(i) >= x { linear_of(i) - x } else { x - linear_of(i) }
}

/// The smallest encoded index among 0..=n whose linear value is nearest to `x`.
pub open spec fn best_encoded_to(x: int, n: int) -> int
    decreases n,
{
    if n <= 0 {
        0
    } else {
        let b = best_encoded_to(x, n - 1);
        if linear_dist(n, x) < linear_dist(b, x) { n } else { b }
    }
}

/// The encoded channel value whose linear-light value is nearest to `x`
/// (ties resolved toward the smaller encoded value).
pub open spec fn encoded_of(x: int) -> int {
    best_encoded_to(x, 255)
}

/// The table is strictly increasing: a smaller encoded value always decodes
/// to a strictly smaller linear value.
pub proof fn lemma_linear_mono(i: int, j: int)
    requires
        0 <= i < j < 256,
    ensures
        linear_of(i) < linear_of(j),
    decreases j - i,
{
    lemma_linear_step_mono();
    if i + 1 < j {
        lemma_linear_mono(i + 1, j);
    }
}

proof fn lemma_best_encoded_to(x: int, n: int)
    requires
        0 <= n < 256,
    ensures
        0 <= best_encoded_to(x, n) <= n,
        forall|j: int| 0 <= j <= n ==> linear_dist(best_encoded_to(x, n), x) <= #[trigger] linear_dist(j, x),
        forall|j: int| 0 <= j < best_encoded_to(x, n) ==> #[trigger] linear_dist(j, x) > linear_dist(best_encoded_to(x, n), x),
    decreases n,
{
    if n > 0 {
        lemma_best_encoded_to(x, n - 1);
    }
}

/// Any index that is nearest to `x`, and strictly nearer than every smaller
/// index, is exactly `encoded_of(x)`.
proof fn lemma_encoded_of_unique(x: int, c: int)
    requires
        0 <= c < 256,
        forall|j: int| 0 <= j < 256 ==> linear_dist(c, x) <= #[trigger] linear_dist(j, x),
        forall|j: int| 0 <= j < c ==> #[trigger] linear_dist(j, x) > linear_dist(c, x),
    ensures
        encoded_of(x) == c,
{
    lemma_best_encoded_to(x, 255);
}

/// Encoding always lands on an 8-bit value.
pub proof fn lemma_encoded_range(x: int)
    ensures
        0 <= encoded_of(x) < 256,
{
    lemma_best_encoded_to(x, 255);
}

/// Encode a linear-light value (fixed point, 65536 = 1.0) to the nearest
/// encoded (gamma-compressed) 8-bit channel value.
pub fn to_encoded(x: u32) -> (r: u8)
    ensures
        r == encoded_of(x as int),
{
    proof {
        lemma_linear_step_mono();
        lemma_linear_range();
        assert(linear_of(0) == 0 && linear_of(255) == 65536) by {
            reveal(linear_of);
        }
    }
    if x >= LINEAR_ONE {
        proof {
            assert forall|j: int| 0 <= j < 256 implies linear_dist(255, x as int) <= #[trigger] linear_dist(j, x as int) by {
                if j < 255 {
                    lemma_linear_mono(j, 255);
                }
            }
            assert forall|j: int| 0 <= j < 255 implies #[trigger] linear_dist(j, x as int) > linear_dist(255, x as int) by {
                lemma_linear_mono(j, 255);
            }
            lemma_encoded_of_unique(x as int, 255);
        }
        return 255;
    }
    // Binary search for the largest index whose linear value is at most x.
    let mut lo: u8 = 0;
    let mut hi: u8 = 255;
    while lo + 1 < hi
        invariant
            lo < hi <= 255,
            linear_of(lo as int) <= x as int,
            (x as int) < linear_of(hi as int),
        decreases hi - lo,
    {
        let mid: u8 = lo + (hi - lo) / 2;
        if to_linear(mid) <= x {
            lo = mid;
        } else {
            hi = mid;
        }
    }
    let d_lo: u32 = x - to_linear(lo);
    let d_hi: u32 = to_linear(hi) - x;
    let c: u8 = if d_hi < d_lo { hi } else { lo };
    proof {
        let xi = x as int;
        let ci = c as int;
        assert forall|j: int| 0 <= j < 256 implies linear_dist(ci, xi) <= #[trigger] linear_dist(j, xi) by {
            if j < lo as int {
                lemma_linear_mono(j, lo as int);
            }
            if j > hi as int {
                lemma_linear_mono(hi as int, j);
            }
        }
        assert forall|j: int| 0 <= j < ci implies #[trigger] linear_dist(j, xi) > linear_dist(ci, xi) by {
            if j < lo as int {
                lemma_linear_mono(j, lo as int);
            }
        }
        lemma_encoded_of_unique(xi, ci);
    }
    c
}

/// Decoding an 8-bit channel value to linear light and encoding it back is
/// the identity: the round trip over the transfer-function pair is exact.
pub proof fn lemma_encode_decode_round_trip(e: u8)
    ensures
        encoded_of(linear_of(e as int)) == e as int,
{
    let x = linear_of(e as int);
    assert forall|j: int| 0 <= j < 256 implies linear_dist(e as int, x) <= #[trigger] linear_dist(j, x) by {
        if j < e as int {
            lemma_linear_mono(j, e as int);
        }
        if j > e as int {
            lemma_linear_mono(e as int, j);
        }
    }
    assert forall|j: int| 0 <= j < e as int implies #[trigger] linear_dist(j, x) > linear_dist(e as int, x) by {
        lemma_linear_mono(j, e as int);
    }
    lemma_encoded_of_unique(x, e as int);
}

/// Rec. 709 luma of an encoded RGB sample, scaled by 10000: the weighted sum
/// 2126 R + 7152 G + 722 B of the three 8-bit channels.
pub open spec fn luma_of(r: int, g: int, b: int) -> int {
    2126 * r + 7152 * g + 722 * b
}

/// Rec. 709 luma of one encoded RGB sample, scaled by 10000 so that the
/// weights stay exact integers.
pub fn luma(r: u8, g: u8, b: u8) -> (l: u32)
    ensures
        l == luma_of(r as int, g as int, b as int),
        l <= 2550000,
{
    2126 * (r as u32) + 7152 * (g as u32) + 722 * (b as u32)
}

} // verus!
