//! How many columns a character takes.

use vstd::prelude::*;

verus! {

/// How many columns a character takes, from U+00A0 on, in version 18 of Unicode:
/// none where it joins the character before it, two where it is wide, and one
/// otherwise. Only U+17D8 takes three. The emulator draws by the same table, that
/// of the `unicode-width` crate.
pub open spec fn columns(code: u32) -> u32 {
    match code {
        0xadu32 | 0x300u32..=0x36fu32 | 0x483u32..=0x489u32 | 0x591u32..=0x5bdu32 | 0x5bfu32
        | 0x5c1u32..=0x5c2u32 | 0x5c4u32..=0x5c5u32 | 0x5c7u32..=0x5c9u32 | 0x605u32
        | 0x610u32..=0x61au32 | 0x61cu32 | 0x64bu32..=0x65fu32 | 0x670u32 | 0x6d6u32..=0x6dcu32
        | 0x6dfu32..=0x6e4u32 | 0x6e7u32..=0x6e8u32 | 0x6eau32..=0x6edu32 | 0x70fu32 | 0x711u32
        | 0x730u32..=0x74au32 | 0x7a6u32..=0x7b0u32 | 0x7ebu32..=0x7f3u32 | 0x7fdu32
        | 0x816u32..=0x819u32 | 0x81bu32..=0x823u32 | 0x825u32..=0x827u32 | 0x829u32..=0x82du32
        | 0x859u32..=0x85bu32 | 0x890u32..=0x891u32 | 0x897u32..=0x89fu32 | 0x8cau32..=0x902u32
        | 0x93au32 | 0x93cu32 | 0x941u32..=0x948u32 | 0x94du32 | 0x951u32..=0x957u32
        | 0x962u32..=0x963u32 | 0x981u32 | 0x9bcu32 | 0x9beu32 | 0x9c1u32..=0x9c4u32 | 0x9cdu32
        | 0x9d7u32 | 0x9e2u32..=0x9e3u32 | 0x9feu32 | 0xa01u32..=0xa02u32 | 0xa3cu32
        | 0xa41u32..=0xa42u32 | 0xa47u32..=0xa48u32 | 0xa4bu32..=0xa4du32 | 0xa51u32
        | 0xa70u32..=0xa71u32 | 0xa75u32 | 0xa81u32..=0xa82u32 | 0xabcu32 | 0xac1u32..=0xac5u32
        | 0xac7u32..=0xac8u32 | 0xacdu32 | 0xae2u32..=0xae3u32 | 0xafau32..=0xaffu32 | 0xb01u32
        | 0xb3cu32 | 0xb3eu32..=0xb3fu32 | 0xb41u32..=0xb44u32 | 0xb4du32 | 0xb53u32..=0xb57u32
        | 0xb62u32..=0xb63u32 | 0xb82u32 | 0xbbeu32 | 0xbc0u32 | 0xbcdu32 | 0xbd7u32 | 0xc00u32
        | 0xc04u32 | 0xc3cu32 | 0xc3eu32..=0xc40u32 | 0xc46u32..=0xc48u32 | 0xc4au32..=0xc4du32
        | 0xc55u32..=0xc56u32 | 0xc62u32..=0xc63u32 | 0xc81u32 | 0xcbcu32 | 0xcbfu32..=0xcc0u32
        | 0xcc2u32 | 0xcc6u32..=0xcc8u32 | 0xccau32..=0xccdu32 | 0xcd5u32..=0xcd6u32
        | 0xce2u32..=0xce3u32 | 0xd00u32..=0xd01u32 | 0xd3bu32..=0xd3cu32 | 0xd3eu32
        | 0xd41u32..=0xd44u32 | 0xd4du32..=0xd4eu32 | 0xd57u32 | 0xd62u32..=0xd63u32 | 0xd81u32
        | 0xdcau32 | 0xdcfu32 | 0xdd2u32..=0xdd4u32 | 0xdd6u32 | 0xddfu32 | 0xe31u32
        | 0xe34u32..=0xe3au32 | 0xe47u32..=0xe4eu32 | 0xeb1u32 | 0xeb4u32..=0xebcu32
        | 0xec8u32..=0xeceu32 | 0xf18u32..=0xf19u32 | 0xf35u32 | 0xf37u32 | 0xf39u32
        | 0xf71u32..=0xf7eu32 | 0xf80u32..=0xf84u32 | 0xf86u32..=0xf87u32 | 0xf8du32..=0xf97u32
        | 0xf99u32..=0xfbcu32 | 0xfc6u32 | 0x102du32..=0x1030u32 | 0x1032u32..=0x1037u32
        | 0x1039u32..=0x103au32 | 0x103du32..=0x103eu32 | 0x1058u32..=0x1059u32
        | 0x105eu32..=0x1060u32 | 0x1071u32..=0x1074u32 | 0x1082u32 | 0x1085u32..=0x1086u32
        | 0x108du32 | 0x109du32 | 0x1160u32..=0x11ffu32 | 0x135du32..=0x135fu32
        | 0x1712u32..=0x1715u32 | 0x1732u32..=0x1734u32 | 0x1752u32..=0x1753u32
        | 0x1772u32..=0x1773u32 | 0x17b4u32..=0x17b5u32 | 0x17b7u32..=0x17bdu32 | 0x17c6u32
        | 0x17c9u32..=0x17d3u32 | 0x17ddu32 | 0x180bu32..=0x180fu32 | 0x1885u32..=0x1886u32
        | 0x18a9u32 | 0x1920u32..=0x1922u32 | 0x1927u32..=0x1928u32 | 0x1932u32
        | 0x1939u32..=0x193bu32 | 0x1a17u32..=0x1a18u32 | 0x1a1bu32 | 0x1a56u32
        | 0x1a58u32..=0x1a5eu32 | 0x1a60u32 | 0x1a62u32 | 0x1a65u32..=0x1a6cu32
        | 0x1a73u32..=0x1a7cu32 | 0x1a7fu32 | 0x1ab0u32..=0x1af0u32 | 0x1b00u32..=0x1b03u32
        | 0x1b34u32..=0x1b3du32 | 0x1b42u32..=0x1b44u32 | 0x1b6bu32..=0x1b73u32
        | 0x1b80u32..=0x1b81u32 | 0x1ba2u32..=0x1ba5u32 | 0x1ba8u32..=0x1badu32 | 0x1be6u32
        | 0x1be8u32..=0x1be9u32 | 0x1bedu32 | 0x1befu32..=0x1bf3u32 | 0x1c2cu32..=0x1c33u32
        | 0x1c36u32..=0x1c37u32 | 0x1cd0u32..=0x1cd2u32 | 0x1cd4u32..=0x1ce0u32
        | 0x1ce2u32..=0x1ce8u32 | 0x1cedu32 | 0x1cf4u32 | 0x1cf8u32..=0x1cf9u32
        | 0x1dc0u32..=0x1dffu32 | 0x200bu32..=0x200fu32 | 0x202au32..=0x202eu32
        | 0x2060u32..=0x206fu32 | 0x20d0u32..=0x20f0u32 | 0x2cefu32..=0x2cf1u32
        | 0x2de0u32..=0x2dffu32 | 0x302au32..=0x302fu32 | 0x3099u32..=0x309au32 | 0x3164u32
        | 0xa66fu32..=0xa672u32 | 0xa674u32..=0xa67du32 | 0xa69eu32..=0xa69fu32
        | 0xa6f0u32..=0xa6f1u32 | 0xa802u32 | 0xa806u32 | 0xa80bu32 | 0xa825u32..=0xa826u32
        | 0xa82cu32 | 0xa8c4u32..=0xa8c5u32 | 0xa8e0u32..=0xa8f1u32 | 0xa8fau32 | 0xa8ffu32
        | 0xa926u32..=0xa92du32 | 0xa947u32..=0xa951u32 | 0xa953u32 | 0xa980u32..=0xa982u32
        | 0xa9b3u32 | 0xa9b6u32..=0xa9b9u32 | 0xa9bcu32..=0xa9bdu32 | 0xa9c0u32 | 0xa9e5u32
        | 0xaa29u32..=0xaa2eu32 | 0xaa31u32..=0xaa32u32 | 0xaa35u32..=0xaa36u32 | 0xaa43u32
        | 0xaa4cu32 | 0xaa7cu32 | 0xaab0u32 | 0xaab2u32..=0xaab4u32 | 0xaab7u32..=0xaab8u32
        | 0xaabeu32..=0xaabfu32 | 0xaac1u32 | 0xaaecu32..=0xaaedu32 | 0xaaf6u32 | 0xabe5u32
        | 0xabe8u32 | 0xabedu32 | 0xd7b0u32..=0xd7c6u32 | 0xd7cbu32..=0xd7fbu32 | 0xfb1eu32
        | 0xfe00u32..=0xfe0fu32 | 0xfe20u32..=0xfe2fu32 | 0xfeffu32 | 0xffa0u32
        | 0xfff0u32..=0xfff8u32 | 0x101fdu32 | 0x102e0u32 | 0x10376u32..=0x1037au32
        | 0x10a01u32..=0x10a03u32 | 0x10a05u32..=0x10a06u32 | 0x10a0cu32..=0x10a0fu32
        | 0x10a38u32..=0x10a3au32 | 0x10a3fu32 | 0x10ae5u32..=0x10ae6u32 | 0x10d24u32..=0x10d27u32
        | 0x10d69u32..=0x10d6du32 | 0x10eabu32..=0x10eacu32 | 0x10ecbu32..=0x10ecfu32
        | 0x10ef0u32..=0x10effu32 | 0x10f46u32..=0x10f50u32 | 0x10f82u32..=0x10f85u32 | 0x11001u32
        | 0x11038u32..=0x11046u32 | 0x11070u32 | 0x11073u32..=0x11074u32 | 0x1107fu32..=0x11081u32
        | 0x110b3u32..=0x110b6u32 | 0x110b9u32..=0x110bau32 | 0x110c2u32 | 0x11100u32..=0x11102u32
        | 0x11127u32..=0x1112bu32 | 0x1112du32..=0x11134u32 | 0x11173u32 | 0x11180u32..=0x11181u32
        | 0x111b6u32..=0x111beu32 | 0x111c0u32 | 0x111c2u32..=0x111c3u32 | 0x111c9u32..=0x111ccu32
        | 0x111cfu32 | 0x1122fu32..=0x11231u32 | 0x11234u32..=0x11237u32 | 0x1123eu32 | 0x11241u32
        | 0x112dfu32 | 0x112e3u32..=0x112eau32 | 0x11300u32..=0x11301u32 | 0x1133bu32..=0x1133cu32
        | 0x1133eu32 | 0x11340u32 | 0x1134du32 | 0x11357u32 | 0x11366u32..=0x1136cu32
        | 0x11370u32..=0x11374u32 | 0x113b8u32 | 0x113bbu32..=0x113c0u32 | 0x113c2u32 | 0x113c5u32
        | 0x113c7u32..=0x113c9u32 | 0x113ceu32..=0x113d2u32 | 0x113e1u32..=0x113e2u32
        | 0x11438u32..=0x1143fu32 | 0x11442u32..=0x11444u32 | 0x11446u32 | 0x1145eu32 | 0x114b0u32
        | 0x114b3u32..=0x114b8u32 | 0x114bau32 | 0x114bdu32 | 0x114bfu32..=0x114c0u32
        | 0x114c2u32..=0x114c3u32 | 0x115afu32 | 0x115b2u32..=0x115b5u32 | 0x115bcu32..=0x115bdu32
        | 0x115bfu32..=0x115c0u32 | 0x115dcu32..=0x115ddu32 | 0x11633u32..=0x1163au32 | 0x1163du32
        | 0x1163fu32..=0x11640u32 | 0x116abu32 | 0x116adu32 | 0x116b0u32..=0x116b7u32 | 0x1171du32
        | 0x1171fu32 | 0x11722u32..=0x11725u32 | 0x11727u32..=0x1172bu32 | 0x1182fu32..=0x11837u32
        | 0x11839u32..=0x1183au32 | 0x11930u32 | 0x1193bu32..=0x1193fu32 | 0x11941u32 | 0x11943u32
        | 0x119d4u32..=0x119d7u32 | 0x119dau32..=0x119dbu32 | 0x119e0u32 | 0x11a01u32..=0x11a0au32
        | 0x11a33u32..=0x11a38u32 | 0x11a3bu32..=0x11a3eu32 | 0x11a47u32 | 0x11a51u32..=0x11a56u32
        | 0x11a59u32..=0x11a5bu32 | 0x11a84u32..=0x11a96u32 | 0x11a98u32..=0x11a99u32 | 0x11b60u32
        | 0x11b62u32..=0x11b64u32 | 0x11b66u32 | 0x11c30u32..=0x11c36u32 | 0x11c38u32..=0x11c3du32
        | 0x11c3fu32 | 0x11c92u32..=0x11ca7u32 | 0x11caau32..=0x11cb0u32 | 0x11cb2u32..=0x11cb3u32
        | 0x11cb5u32..=0x11cb6u32 | 0x11d31u32..=0x11d36u32 | 0x11d3au32 | 0x11d3cu32..=0x11d3du32
        | 0x11d3fu32..=0x11d47u32 | 0x11d90u32..=0x11d91u32 | 0x11d95u32 | 0x11d97u32 | 0x11df0u32
        | 0x11ef3u32..=0x11ef4u32 | 0x11f00u32..=0x11f02u32 | 0x11f36u32..=0x11f3au32
        | 0x11f40u32..=0x11f42u32 | 0x11f5au32 | 0x13440u32 | 0x13447u32..=0x13455u32
        | 0x1611eu32..=0x16129u32 | 0x1612du32..=0x1612fu32 | 0x16af0u32..=0x16af4u32
        | 0x16b30u32..=0x16b36u32 | 0x16f4fu32 | 0x16f8fu32..=0x16f92u32 | 0x16fe4u32
        | 0x16ff0u32..=0x16ff1u32 | 0x1bc9du32..=0x1bc9eu32 | 0x1bca0u32..=0x1bca3u32
        | 0x1cf00u32..=0x1cf2du32 | 0x1cf30u32..=0x1cf46u32 | 0x1d127u32..=0x1d128u32
        | 0x1d165u32..=0x1d169u32 | 0x1d16du32..=0x1d182u32 | 0x1d185u32..=0x1d18bu32
        | 0x1d1aau32..=0x1d1adu32 | 0x1d242u32..=0x1d244u32 | 0x1d250u32..=0x1d252u32
        | 0x1d25bu32..=0x1d25cu32 | 0x1d25fu32 | 0x1d280u32..=0x1d281u32 | 0x1da00u32..=0x1da36u32
        | 0x1da3bu32..=0x1da6cu32 | 0x1da75u32 | 0x1da84u32 | 0x1da9bu32..=0x1da9fu32
        | 0x1daa1u32..=0x1daafu32 | 0x1e000u32..=0x1e006u32 | 0x1e008u32..=0x1e018u32
        | 0x1e01bu32..=0x1e021u32 | 0x1e023u32..=0x1e024u32 | 0x1e026u32..=0x1e02au32 | 0x1e08fu32
        | 0x1e130u32..=0x1e136u32 | 0x1e2aeu32 | 0x1e2ecu32..=0x1e2efu32 | 0x1e4ecu32..=0x1e4efu32
        | 0x1e5eeu32..=0x1e5efu32 | 0x1e6e3u32 | 0x1e6e6u32 | 0x1e6eeu32..=0x1e6efu32 | 0x1e6f5u32
        | 0x1e8d0u32..=0x1e8d6u32 | 0x1e944u32..=0x1e94au32 | 0xe0000u32..=0xe0fffu32 => 0,
        0x1100u32..=0x115fu32 | 0x17a4u32 | 0x231au32..=0x231bu32 | 0x2329u32..=0x232au32
        | 0x23e9u32..=0x23ecu32 | 0x23f0u32 | 0x23f3u32 | 0x25fdu32..=0x25feu32
        | 0x2614u32..=0x2615u32 | 0x2630u32..=0x2637u32 | 0x2648u32..=0x2653u32 | 0x267fu32
        | 0x268au32..=0x268fu32 | 0x2693u32 | 0x26a1u32 | 0x26aau32..=0x26abu32
        | 0x26bdu32..=0x26beu32 | 0x26c4u32..=0x26c5u32 | 0x26ceu32 | 0x26d4u32 | 0x26eau32
        | 0x26f2u32..=0x26f3u32 | 0x26f5u32 | 0x26fau32 | 0x26fdu32 | 0x2705u32
        | 0x270au32..=0x270bu32 | 0x2728u32 | 0x274cu32 | 0x274eu32 | 0x2753u32..=0x2755u32
        | 0x2757u32 | 0x2795u32..=0x2797u32 | 0x27b0u32 | 0x27bfu32 | 0x2b1bu32..=0x2b1cu32
        | 0x2b50u32 | 0x2b55u32 | 0x2e80u32..=0x2e99u32 | 0x2e9bu32..=0x2ef3u32
        | 0x2f00u32..=0x2fd5u32 | 0x2ff0u32..=0x3029u32 | 0x3030u32..=0x303eu32
        | 0x3041u32..=0x3096u32 | 0x309bu32..=0x30ffu32 | 0x3105u32..=0x312fu32
        | 0x3131u32..=0x3163u32 | 0x3165u32..=0x318eu32 | 0x3190u32..=0x31e5u32
        | 0x31efu32..=0x321eu32 | 0x3220u32..=0x3247u32 | 0x3250u32..=0xa48cu32
        | 0xa490u32..=0xa4c6u32 | 0xa960u32..=0xa97cu32 | 0xac00u32..=0xd7a3u32
        | 0xf900u32..=0xfaffu32 | 0xfe10u32..=0xfe19u32 | 0xfe30u32..=0xfe52u32
        | 0xfe54u32..=0xfe66u32 | 0xfe68u32..=0xfe6bu32 | 0xff01u32..=0xff60u32
        | 0xffe0u32..=0xffe6u32 | 0x16fe0u32..=0x16fe3u32 | 0x16ff2u32..=0x16ff6u32
        | 0x17000u32..=0x18cdau32 | 0x18cffu32..=0x18d20u32 | 0x18d80u32..=0x18df2u32
        | 0x18e00u32..=0x19191u32 | 0x191a0u32..=0x191d2u32 | 0x1aff0u32..=0x1aff3u32
        | 0x1aff5u32..=0x1affbu32 | 0x1affdu32..=0x1affeu32 | 0x1b000u32..=0x1b128u32 | 0x1b132u32
        | 0x1b150u32..=0x1b152u32 | 0x1b155u32 | 0x1b164u32..=0x1b168u32 | 0x1b170u32..=0x1b2fbu32
        | 0x1d300u32..=0x1d356u32 | 0x1d360u32..=0x1d376u32 | 0x1f004u32 | 0x1f0cfu32 | 0x1f18eu32
        | 0x1f191u32..=0x1f19au32 | 0x1f1aeu32 | 0x1f200u32..=0x1f202u32 | 0x1f210u32..=0x1f23bu32
        | 0x1f240u32..=0x1f248u32 | 0x1f250u32..=0x1f251u32 | 0x1f260u32..=0x1f265u32
        | 0x1f300u32..=0x1f320u32 | 0x1f32du32..=0x1f335u32 | 0x1f337u32..=0x1f37cu32
        | 0x1f37eu32..=0x1f393u32 | 0x1f3a0u32..=0x1f3cau32 | 0x1f3cfu32..=0x1f3d3u32
        | 0x1f3e0u32..=0x1f3f0u32 | 0x1f3f4u32 | 0x1f3f8u32..=0x1f43eu32 | 0x1f440u32
        | 0x1f442u32..=0x1f4fcu32 | 0x1f4ffu32..=0x1f53du32 | 0x1f54bu32..=0x1f54eu32
        | 0x1f550u32..=0x1f567u32 | 0x1f57au32 | 0x1f595u32..=0x1f596u32 | 0x1f5a4u32
        | 0x1f5fbu32..=0x1f64fu32 | 0x1f680u32..=0x1f6c5u32 | 0x1f6ccu32 | 0x1f6d0u32..=0x1f6d2u32
        | 0x1f6d5u32..=0x1f6d9u32 | 0x1f6dcu32..=0x1f6dfu32 | 0x1f6ebu32..=0x1f6ecu32
        | 0x1f6f4u32..=0x1f6fcu32 | 0x1f7dau32 | 0x1f7e0u32..=0x1f7ebu32 | 0x1f7f0u32
        | 0x1f90cu32..=0x1f93au32 | 0x1f93cu32..=0x1f945u32 | 0x1f947u32..=0x1f9ffu32
        | 0x1fa70u32..=0x1fa7cu32 | 0x1fa80u32..=0x1fac6u32 | 0x1fac8u32 | 0x1faccu32..=0x1faddu32
        | 0x1fadfu32..=0x1faebu32 | 0x1faefu32..=0x1fafau32 | 0x20000u32..=0x2fffdu32
        | 0x30000u32..=0x3fffdu32 => 2,
        0x17d8u32 => 3,
        _ => 1,
    }
}

/// How many columns a character takes.
pub fn width(code: u32) -> (width: u32)
    ensures
        width == columns(code),
{
    match code {
        0xad | 0x300..=0x36f | 0x483..=0x489 | 0x591..=0x5bd | 0x5bf | 0x5c1..=0x5c2
        | 0x5c4..=0x5c5 | 0x5c7..=0x5c9 | 0x605 | 0x610..=0x61a | 0x61c | 0x64b..=0x65f | 0x670
        | 0x6d6..=0x6dc | 0x6df..=0x6e4 | 0x6e7..=0x6e8 | 0x6ea..=0x6ed | 0x70f | 0x711
        | 0x730..=0x74a | 0x7a6..=0x7b0 | 0x7eb..=0x7f3 | 0x7fd | 0x816..=0x819 | 0x81b..=0x823
        | 0x825..=0x827 | 0x829..=0x82d | 0x859..=0x85b | 0x890..=0x891 | 0x897..=0x89f
        | 0x8ca..=0x902 | 0x93a | 0x93c | 0x941..=0x948 | 0x94d | 0x951..=0x957 | 0x962..=0x963
        | 0x981 | 0x9bc | 0x9be | 0x9c1..=0x9c4 | 0x9cd | 0x9d7 | 0x9e2..=0x9e3 | 0x9fe
        | 0xa01..=0xa02 | 0xa3c | 0xa41..=0xa42 | 0xa47..=0xa48 | 0xa4b..=0xa4d | 0xa51
        | 0xa70..=0xa71 | 0xa75 | 0xa81..=0xa82 | 0xabc | 0xac1..=0xac5 | 0xac7..=0xac8 | 0xacd
        | 0xae2..=0xae3 | 0xafa..=0xaff | 0xb01 | 0xb3c | 0xb3e..=0xb3f | 0xb41..=0xb44 | 0xb4d
        | 0xb53..=0xb57 | 0xb62..=0xb63 | 0xb82 | 0xbbe | 0xbc0 | 0xbcd | 0xbd7 | 0xc00 | 0xc04
        | 0xc3c | 0xc3e..=0xc40 | 0xc46..=0xc48 | 0xc4a..=0xc4d | 0xc55..=0xc56 | 0xc62..=0xc63
        | 0xc81 | 0xcbc | 0xcbf..=0xcc0 | 0xcc2 | 0xcc6..=0xcc8 | 0xcca..=0xccd | 0xcd5..=0xcd6
        | 0xce2..=0xce3 | 0xd00..=0xd01 | 0xd3b..=0xd3c | 0xd3e | 0xd41..=0xd44 | 0xd4d..=0xd4e
        | 0xd57 | 0xd62..=0xd63 | 0xd81 | 0xdca | 0xdcf | 0xdd2..=0xdd4 | 0xdd6 | 0xddf | 0xe31
        | 0xe34..=0xe3a | 0xe47..=0xe4e | 0xeb1 | 0xeb4..=0xebc | 0xec8..=0xece | 0xf18..=0xf19
        | 0xf35 | 0xf37 | 0xf39 | 0xf71..=0xf7e | 0xf80..=0xf84 | 0xf86..=0xf87 | 0xf8d..=0xf97
        | 0xf99..=0xfbc | 0xfc6 | 0x102d..=0x1030 | 0x1032..=0x1037 | 0x1039..=0x103a
        | 0x103d..=0x103e | 0x1058..=0x1059 | 0x105e..=0x1060 | 0x1071..=0x1074 | 0x1082
        | 0x1085..=0x1086 | 0x108d | 0x109d | 0x1160..=0x11ff | 0x135d..=0x135f | 0x1712..=0x1715
        | 0x1732..=0x1734 | 0x1752..=0x1753 | 0x1772..=0x1773 | 0x17b4..=0x17b5 | 0x17b7..=0x17bd
        | 0x17c6 | 0x17c9..=0x17d3 | 0x17dd | 0x180b..=0x180f | 0x1885..=0x1886 | 0x18a9
        | 0x1920..=0x1922 | 0x1927..=0x1928 | 0x1932 | 0x1939..=0x193b | 0x1a17..=0x1a18 | 0x1a1b
        | 0x1a56 | 0x1a58..=0x1a5e | 0x1a60 | 0x1a62 | 0x1a65..=0x1a6c | 0x1a73..=0x1a7c | 0x1a7f
        | 0x1ab0..=0x1af0 | 0x1b00..=0x1b03 | 0x1b34..=0x1b3d | 0x1b42..=0x1b44 | 0x1b6b..=0x1b73
        | 0x1b80..=0x1b81 | 0x1ba2..=0x1ba5 | 0x1ba8..=0x1bad | 0x1be6 | 0x1be8..=0x1be9 | 0x1bed
        | 0x1bef..=0x1bf3 | 0x1c2c..=0x1c33 | 0x1c36..=0x1c37 | 0x1cd0..=0x1cd2 | 0x1cd4..=0x1ce0
        | 0x1ce2..=0x1ce8 | 0x1ced | 0x1cf4 | 0x1cf8..=0x1cf9 | 0x1dc0..=0x1dff | 0x200b..=0x200f
        | 0x202a..=0x202e | 0x2060..=0x206f | 0x20d0..=0x20f0 | 0x2cef..=0x2cf1 | 0x2de0..=0x2dff
        | 0x302a..=0x302f | 0x3099..=0x309a | 0x3164 | 0xa66f..=0xa672 | 0xa674..=0xa67d
        | 0xa69e..=0xa69f | 0xa6f0..=0xa6f1 | 0xa802 | 0xa806 | 0xa80b | 0xa825..=0xa826 | 0xa82c
        | 0xa8c4..=0xa8c5 | 0xa8e0..=0xa8f1 | 0xa8fa | 0xa8ff | 0xa926..=0xa92d | 0xa947..=0xa951
        | 0xa953 | 0xa980..=0xa982 | 0xa9b3 | 0xa9b6..=0xa9b9 | 0xa9bc..=0xa9bd | 0xa9c0 | 0xa9e5
        | 0xaa29..=0xaa2e | 0xaa31..=0xaa32 | 0xaa35..=0xaa36 | 0xaa43 | 0xaa4c | 0xaa7c | 0xaab0
        | 0xaab2..=0xaab4 | 0xaab7..=0xaab8 | 0xaabe..=0xaabf | 0xaac1 | 0xaaec..=0xaaed | 0xaaf6
        | 0xabe5 | 0xabe8 | 0xabed | 0xd7b0..=0xd7c6 | 0xd7cb..=0xd7fb | 0xfb1e | 0xfe00..=0xfe0f
        | 0xfe20..=0xfe2f | 0xfeff | 0xffa0 | 0xfff0..=0xfff8 | 0x101fd | 0x102e0
        | 0x10376..=0x1037a | 0x10a01..=0x10a03 | 0x10a05..=0x10a06 | 0x10a0c..=0x10a0f
        | 0x10a38..=0x10a3a | 0x10a3f | 0x10ae5..=0x10ae6 | 0x10d24..=0x10d27 | 0x10d69..=0x10d6d
        | 0x10eab..=0x10eac | 0x10ecb..=0x10ecf | 0x10ef0..=0x10eff | 0x10f46..=0x10f50
        | 0x10f82..=0x10f85 | 0x11001 | 0x11038..=0x11046 | 0x11070 | 0x11073..=0x11074
        | 0x1107f..=0x11081 | 0x110b3..=0x110b6 | 0x110b9..=0x110ba | 0x110c2 | 0x11100..=0x11102
        | 0x11127..=0x1112b | 0x1112d..=0x11134 | 0x11173 | 0x11180..=0x11181 | 0x111b6..=0x111be
        | 0x111c0 | 0x111c2..=0x111c3 | 0x111c9..=0x111cc | 0x111cf | 0x1122f..=0x11231
        | 0x11234..=0x11237 | 0x1123e | 0x11241 | 0x112df | 0x112e3..=0x112ea | 0x11300..=0x11301
        | 0x1133b..=0x1133c | 0x1133e | 0x11340 | 0x1134d | 0x11357 | 0x11366..=0x1136c
        | 0x11370..=0x11374 | 0x113b8 | 0x113bb..=0x113c0 | 0x113c2 | 0x113c5 | 0x113c7..=0x113c9
        | 0x113ce..=0x113d2 | 0x113e1..=0x113e2 | 0x11438..=0x1143f | 0x11442..=0x11444 | 0x11446
        | 0x1145e | 0x114b0 | 0x114b3..=0x114b8 | 0x114ba | 0x114bd | 0x114bf..=0x114c0
        | 0x114c2..=0x114c3 | 0x115af | 0x115b2..=0x115b5 | 0x115bc..=0x115bd | 0x115bf..=0x115c0
        | 0x115dc..=0x115dd | 0x11633..=0x1163a | 0x1163d | 0x1163f..=0x11640 | 0x116ab | 0x116ad
        | 0x116b0..=0x116b7 | 0x1171d | 0x1171f | 0x11722..=0x11725 | 0x11727..=0x1172b
        | 0x1182f..=0x11837 | 0x11839..=0x1183a | 0x11930 | 0x1193b..=0x1193f | 0x11941 | 0x11943
        | 0x119d4..=0x119d7 | 0x119da..=0x119db | 0x119e0 | 0x11a01..=0x11a0a | 0x11a33..=0x11a38
        | 0x11a3b..=0x11a3e | 0x11a47 | 0x11a51..=0x11a56 | 0x11a59..=0x11a5b | 0x11a84..=0x11a96
        | 0x11a98..=0x11a99 | 0x11b60 | 0x11b62..=0x11b64 | 0x11b66 | 0x11c30..=0x11c36
        | 0x11c38..=0x11c3d | 0x11c3f | 0x11c92..=0x11ca7 | 0x11caa..=0x11cb0 | 0x11cb2..=0x11cb3
        | 0x11cb5..=0x11cb6 | 0x11d31..=0x11d36 | 0x11d3a | 0x11d3c..=0x11d3d | 0x11d3f..=0x11d47
        | 0x11d90..=0x11d91 | 0x11d95 | 0x11d97 | 0x11df0 | 0x11ef3..=0x11ef4 | 0x11f00..=0x11f02
        | 0x11f36..=0x11f3a | 0x11f40..=0x11f42 | 0x11f5a | 0x13440 | 0x13447..=0x13455
        | 0x1611e..=0x16129 | 0x1612d..=0x1612f | 0x16af0..=0x16af4 | 0x16b30..=0x16b36 | 0x16f4f
        | 0x16f8f..=0x16f92 | 0x16fe4 | 0x16ff0..=0x16ff1 | 0x1bc9d..=0x1bc9e | 0x1bca0..=0x1bca3
        | 0x1cf00..=0x1cf2d | 0x1cf30..=0x1cf46 | 0x1d127..=0x1d128 | 0x1d165..=0x1d169
        | 0x1d16d..=0x1d182 | 0x1d185..=0x1d18b | 0x1d1aa..=0x1d1ad | 0x1d242..=0x1d244
        | 0x1d250..=0x1d252 | 0x1d25b..=0x1d25c | 0x1d25f | 0x1d280..=0x1d281 | 0x1da00..=0x1da36
        | 0x1da3b..=0x1da6c | 0x1da75 | 0x1da84 | 0x1da9b..=0x1da9f | 0x1daa1..=0x1daaf
        | 0x1e000..=0x1e006 | 0x1e008..=0x1e018 | 0x1e01b..=0x1e021 | 0x1e023..=0x1e024
        | 0x1e026..=0x1e02a | 0x1e08f | 0x1e130..=0x1e136 | 0x1e2ae | 0x1e2ec..=0x1e2ef
        | 0x1e4ec..=0x1e4ef | 0x1e5ee..=0x1e5ef | 0x1e6e3 | 0x1e6e6 | 0x1e6ee..=0x1e6ef | 0x1e6f5
        | 0x1e8d0..=0x1e8d6 | 0x1e944..=0x1e94a | 0xe0000..=0xe0fff => 0,
        0x1100..=0x115f | 0x17a4 | 0x231a..=0x231b | 0x2329..=0x232a | 0x23e9..=0x23ec | 0x23f0
        | 0x23f3 | 0x25fd..=0x25fe | 0x2614..=0x2615 | 0x2630..=0x2637 | 0x2648..=0x2653 | 0x267f
        | 0x268a..=0x268f | 0x2693 | 0x26a1 | 0x26aa..=0x26ab | 0x26bd..=0x26be | 0x26c4..=0x26c5
        | 0x26ce | 0x26d4 | 0x26ea | 0x26f2..=0x26f3 | 0x26f5 | 0x26fa | 0x26fd | 0x2705
        | 0x270a..=0x270b | 0x2728 | 0x274c | 0x274e | 0x2753..=0x2755 | 0x2757 | 0x2795..=0x2797
        | 0x27b0 | 0x27bf | 0x2b1b..=0x2b1c | 0x2b50 | 0x2b55 | 0x2e80..=0x2e99 | 0x2e9b..=0x2ef3
        | 0x2f00..=0x2fd5 | 0x2ff0..=0x3029 | 0x3030..=0x303e | 0x3041..=0x3096 | 0x309b..=0x30ff
        | 0x3105..=0x312f | 0x3131..=0x3163 | 0x3165..=0x318e | 0x3190..=0x31e5 | 0x31ef..=0x321e
        | 0x3220..=0x3247 | 0x3250..=0xa48c | 0xa490..=0xa4c6 | 0xa960..=0xa97c | 0xac00..=0xd7a3
        | 0xf900..=0xfaff | 0xfe10..=0xfe19 | 0xfe30..=0xfe52 | 0xfe54..=0xfe66 | 0xfe68..=0xfe6b
        | 0xff01..=0xff60 | 0xffe0..=0xffe6 | 0x16fe0..=0x16fe3 | 0x16ff2..=0x16ff6
        | 0x17000..=0x18cda | 0x18cff..=0x18d20 | 0x18d80..=0x18df2 | 0x18e00..=0x19191
        | 0x191a0..=0x191d2 | 0x1aff0..=0x1aff3 | 0x1aff5..=0x1affb | 0x1affd..=0x1affe
        | 0x1b000..=0x1b128 | 0x1b132 | 0x1b150..=0x1b152 | 0x1b155 | 0x1b164..=0x1b168
        | 0x1b170..=0x1b2fb | 0x1d300..=0x1d356 | 0x1d360..=0x1d376 | 0x1f004 | 0x1f0cf | 0x1f18e
        | 0x1f191..=0x1f19a | 0x1f1ae | 0x1f200..=0x1f202 | 0x1f210..=0x1f23b | 0x1f240..=0x1f248
        | 0x1f250..=0x1f251 | 0x1f260..=0x1f265 | 0x1f300..=0x1f320 | 0x1f32d..=0x1f335
        | 0x1f337..=0x1f37c | 0x1f37e..=0x1f393 | 0x1f3a0..=0x1f3ca | 0x1f3cf..=0x1f3d3
        | 0x1f3e0..=0x1f3f0 | 0x1f3f4 | 0x1f3f8..=0x1f43e | 0x1f440 | 0x1f442..=0x1f4fc
        | 0x1f4ff..=0x1f53d | 0x1f54b..=0x1f54e | 0x1f550..=0x1f567 | 0x1f57a | 0x1f595..=0x1f596
        | 0x1f5a4 | 0x1f5fb..=0x1f64f | 0x1f680..=0x1f6c5 | 0x1f6cc | 0x1f6d0..=0x1f6d2
        | 0x1f6d5..=0x1f6d9 | 0x1f6dc..=0x1f6df | 0x1f6eb..=0x1f6ec | 0x1f6f4..=0x1f6fc | 0x1f7da
        | 0x1f7e0..=0x1f7eb | 0x1f7f0 | 0x1f90c..=0x1f93a | 0x1f93c..=0x1f945 | 0x1f947..=0x1f9ff
        | 0x1fa70..=0x1fa7c | 0x1fa80..=0x1fac6 | 0x1fac8 | 0x1facc..=0x1fadd | 0x1fadf..=0x1faeb
        | 0x1faef..=0x1fafa | 0x20000..=0x2fffd | 0x30000..=0x3fffd => 2,
        0x17d8 => 3,
        _ => 1,
    }
}

// -------------------------------------------------------------------- laws

/// No character takes more than three columns, and only one takes as many. Han,
/// kana and Hangul syllables and emoji faces take two, Latin, Greek and Cyrillic
/// letters, box drawing, braille and private characters one, and combining accents
/// and tags none.
pub proof fn law_scripts_have_their_widths(code: u32)
    ensures
        columns(code) <= 3,
        columns(code) == 3 <==> code == 0x17d8,
        0x1100 <= code <= 0x115f ==> columns(code) == 2,
        0x3041 <= code <= 0x3096 ==> columns(code) == 2,
        0x30a0 <= code <= 0x30ff ==> columns(code) == 2,
        0x3400 <= code <= 0x4dbf ==> columns(code) == 2,
        0x4e00 <= code <= 0x9fff ==> columns(code) == 2,
        0xac00 <= code <= 0xd7a3 ==> columns(code) == 2,
        0xf900 <= code <= 0xfaff ==> columns(code) == 2,
        0xff01 <= code <= 0xff60 ==> columns(code) == 2,
        0x1f600 <= code <= 0x1f64f ==> columns(code) == 2,
        0x20000 <= code <= 0x2fffd ==> columns(code) == 2,
        0x30000 <= code <= 0x3fffd ==> columns(code) == 2,
        0xae <= code <= 0x2ff ==> columns(code) == 1,
        0x370 <= code <= 0x482 ==> columns(code) == 1,
        0x2500 <= code <= 0x25fc ==> columns(code) == 1,
        0x2800 <= code <= 0x28ff ==> columns(code) == 1,
        0xe000 <= code <= 0xf8ff ==> columns(code) == 1,
        0x3fffe <= code <= 0xdffff ==> columns(code) == 1,
        0xe1000 <= code ==> columns(code) == 1,
        0x300 <= code <= 0x36f ==> columns(code) == 0,
        0xe0000 <= code <= 0xe0fff ==> columns(code) == 0,
{
}

} // verus!
