//! The Poseidon parameters the commitment uses over the scalar field of
//! BLS12-381: S-box exponent 17, eight full rounds and twenty-nine partial
//! ones, rate two and capacity one.
use vstd::prelude::*;
use crate::field::{Fe, limbs_value, modulus};
use crate::sponge::PoseidonParameters;

verus! {

/// The entries of a table.
pub open spec fn rows_of(t: Seq<Vec<Fe>>) -> Seq<Seq<Fe>> {
    t.map_values(|r: Vec<Fe>| r@)
}

/// Rows of `w` field elements each.
pub open spec fn table_ok(t: Seq<Vec<Fe>>, w: int) -> bool {
    &&& forall|r: int| 0 <= r < t.len() ==> (#[trigger] t[r])@.len() == w
    &&& forall|r: int, i: int| 0 <= r < t.len() && 0 <= i < w ==> (#[trigger] t[r]@[i]).wf()
}

fn fe(l0: u64, l1: u64, l2: u64, l3: u64) -> (r: Fe)
    requires
        limbs_value([l0, l1, l2, l3]) < modulus(),
    ensures
        r.wf(),
        r.limbs == [l0, l1, l2, l3],
{
    Fe { limbs: [l0, l1, l2, l3] }
}

fn row3(a: Fe, b: Fe, c: Fe) -> (r: Vec<Fe>)
    requires
        a.wf(),
        b.wf(),
        c.wf(),
    ensures
        r@ == seq![a, b, c],
        forall|i: int| 0 <= i < 3 ==> (#[trigger] r@[i]).wf(),
{
    let mut r: Vec<Fe> = Vec::new();
    r.push(a);
    r.push(b);
    r.push(c);
    r
}

fn push_row(t: &mut Vec<Vec<Fe>>, row: Vec<Fe>)
    requires
        table_ok(old(t)@, 3),
        row@.len() == 3,
        forall|i: int| 0 <= i < 3 ==> (#[trigger] row@[i]).wf(),
    ensures
        table_ok(final(t)@, 3),
        final(t)@ == old(t)@.push(row),
{
    t.push(row);
}

fn mds_rows(t: &mut Vec<Vec<Fe>>)
    requires
        table_ok(old(t)@, 3),
    ensures
        table_ok(final(t)@, 3),
        rows_of(final(t)@) == rows_of(old(t)@) + mds_table(),
{
    let ghost t0 = t@;
    push_row(t, row3(fe(0x49baafe86d5989c2, 0x43b7a8012c9fba01, 0xd49df6c7f5128b11, 0x5f92976a00ab503e), fe(0x05a1e7dbece109c0, 0x02e7e47ee282ea1b, 0x6041fa7643d73e2b, 0x2dd44641a270a481), fe(0xe54900bad0631089, 0x4cce5f450e392e5f, 0x81dfbdac9dc72b62, 0x1f8fcff5cf00e716)));
    push_row(t, row3(fe(0x06d08ddba837ad89, 0x983ec9bcec227038, 0xcd3571992780b29a, 0x06b8431905a16718), fe(0xfec83c7f7d75663d, 0xf7533d0e0f06a1af, 0xaf78f53b3dfe3989, 0x0ec41a4a77dc192e), fe(0x2b254cfae058085d, 0x50db8df8886faa9a, 0x50593ac4499e4c24, 0x529633d5af881e74)));
    push_row(t, row3(fe(0x995655082253d4dc, 0x27f84b61f535bb46, 0x5ff0ca4b3c46d79e, 0x3a8c0fc716fd03cd), fe(0x061db8ad6f6dac27, 0xfa2f5218895c116a, 0x6cfdf620b5e51e5c, 0x428dd80696b9b260), fe(0xc0d8375b3825acd3, 0x704868a58fee39d4, 0xb7ed6b514cd6dbe0, 0x0ca149349b5be217)));
    proof {
        assert(rows_of(t@) =~= rows_of(t0) + mds_table());
    }
}

fn ark_rows_0(t: &mut Vec<Vec<Fe>>)
    requires
        table_ok(old(t)@, 3),
    ensures
        table_ok(final(t)@, 3),
        rows_of(final(t)@) == rows_of(old(t)@) + ark_block_0(),
{
    let ghost t0 = t@;
    push_row(t, row3(fe(0x80b7fd8fac77fe88, 0x91d086d6810b5248, 0x06a3baf14c8858b4, 0x62987006c0b7ee95), fe(0xe4ab1a22f27508ca, 0x3da43f76abf28a64, 0xffc8397a3d00425a, 0x33827681995d5b5f), fe(0x7a0dbe17704a8312, 0x2cac75dc279b2d68, 0xe7f760a2277dc7cb, 0x4ba3956d2fad4569)));
    push_row(t, row3(fe(0x882031b0e67ef4df, 0xd55ed4f626a475c7, 0xbe026a7a17a8cf53, 0x2a391d2753a4a3dc), fe(0xadfe17baca05d6a7, 0x2d327fcc948d772c, 0x5bd6df5518cfd41f, 0x0f8985f8e1650514), fe(0x142dcf3534169719, 0x7324c665b458801e, 0xed128d906b923a3e, 0x6954d7bd5cd79925)));
    push_row(t, row3(fe(0x0465e60edce699dd, 0x847cd2c5d9d4cb8b, 0x454361733f0883c5, 0x35af083f36e4c78f), fe(0xc77e709cfd388892, 0xd97bd1f62ff9ef1b, 0x21c0676cee117a9f, 0x1be96fae94465446), fe(0xe39584477a6b1d51, 0x585dc0f39a018e45, 0x68ed209e28684459, 0x321632b35e829d0c)));
    push_row(t, row3(fe(0x613b9721f6453a64, 0xeebd8870fd13a36b, 0x8e79ce13f47ad1cd, 0x3c332a6f6bde2f9f), fe(0xc9e8caeb5cba78ea, 0x4b9a813aaeff60d6, 0x5310a04c4dec2e7e, 0x1d3d0ebf61664c9b), fe(0x1bfc2d16eaabfed4, 0x18c5559c928638ef, 0x27ac13c37e60b525, 0x5946c3155faac9e4)));
    proof {
        assert(rows_of(t@) =~= rows_of(t0) + ark_block_0());
    }
}

fn ark_rows_4(t: &mut Vec<Vec<Fe>>)
    requires
        table_ok(old(t)@, 3),
    ensures
        table_ok(final(t)@, 3),
        rows_of(final(t)@) == rows_of(old(t)@) + ark_block_4(),
{
    let ghost t0 = t@;
    push_row(t, row3(fe(0x98147e6add91e5b1, 0x32d7075ef23a1d71, 0x742944c2e315cca6, 0x0963028f17d8d455), fe(0x2b5794dca268701d, 0x67cd6538d77fd328, 0x43eec72fda8fa703, 0x123e8e266448b94a), fe(0x92864c01f54a3fb0, 0xe07612a89dd74d96, 0x0119f48f3ab77cb9, 0x48c2de97f456a9cb)));
    push_row(t, row3(fe(0xe2da084e5aabb79a, 0x5a465939d04b6c72, 0x3af2bf3c03e420ea, 0x6d3e8a8e8a404d2d), fe(0xf4f9adaa62be8cb5, 0xa782a5c81381535e, 0xe897751d2e5c8414, 0x01dc5d08e9754442), fe(0x9939c46d1625180b, 0x14630dea975b0e97, 0x115fa68d9585cdab, 0x53d9a1cf7ab9047c)));
    push_row(t, row3(fe(0x5dc6f519bb7ab844, 0xf2526a20f9167043, 0x6bf5088614b9684f, 0x28c0bba6880d2ebd), fe(0x843849cd0f879356, 0xc1a6203741decd72, 0xd708dd07234c1b2d, 0x64526bcaec43e9b7), fe(0xbfe1ec7f01d613fa, 0xbef44d92edc6d5b0, 0xd81efaea5a75a434, 0x69cc9a17b00d36e4)));
    push_row(t, row3(fe(0x0bc7b4a4fde8f028, 0xe1eb7284e2b28ed9, 0x12aa8cdbead0bc1c, 0x4828b1e269b84cd9), fe(0xbb724dc8a994499f, 0xb85bc168cb95ff59, 0xea604c7af2391e53, 0x2a3d4ba0f3d948a7), fe(0x59e285eee627df1d, 0x2269bed2dc0d4dbf, 0xb2618213b0d1bf4a, 0x1dcfd7e44946dad9)));
    proof {
        assert(rows_of(t@) =~= rows_of(t0) + ark_block_4());
    }
}

fn ark_rows_8(t: &mut Vec<Vec<Fe>>)
    requires
        table_ok(old(t)@, 3),
    ensures
        table_ok(final(t)@, 3),
        rows_of(final(t)@) == rows_of(old(t)@) + ark_block_8(),
{
    let ghost t0 = t@;
    push_row(t, row3(fe(0xc31955de8386a761, 0x2787caa59f19f49d, 0xf08a21a93a6523b1, 0x0023dc54edb83753), fe(0x9b3248ee326e92a7, 0xab40efae6fa9cd91, 0x83e90bab8ae37f8a, 0x5dcd236bdc15b5fc), fe(0x741a90bbd53a698a, 0x2bd999084e30688e, 0x60c946418bf0e582, 0x005463841390e22d)));
    push_row(t, row3(fe(0x8226e7426144f822, 0xd781fc9ee51bd8b0, 0x4b8e6f03d809c169, 0x12714569ac04f047), fe(0x7fc77d45e1b04561, 0x153ca4c02172dd1d, 0x8dc88f05393d9d03, 0x64e50cb07b3873f2), fe(0xd0b32e1189b6dcc2, 0x1d9b499c35f375d7, 0x7b430e53238d2bab, 0x6e2ca053e4da10a5)));
    push_row(t, row3(fe(0x951bff3e3d7e11a5, 0xc60fe50d0ae19d66, 0x77b9a7d8aeafe41e, 0x3b2c4ab79bffa2d9), fe(0x98935cf47d55a903, 0x4050ac92ca52f5c7, 0x6a82fe5bb90807f4, 0x37645ca5e87a9ff7), fe(0x015391ca63663774, 0x23d4b71d17133438, 0x200eed38d248ecda, 0x695b8aeaca96ac30)));
    push_row(t, row3(fe(0x96c1b659bf10b2f4, 0x65c9f5e608faccc2, 0x77487ae8fc8752be, 0x246631fa922d00ad), fe(0x3913831d34de2d30, 0x406da079615db304, 0x93bae89bad6d03ae, 0x26a1e960da44c4ec), fe(0xb70ae6e870e2209c, 0x42dc392ceb3887e6, 0xaddc4445024e4d10, 0x6e5aaa14b285c03a)));
    proof {
        assert(rows_of(t@) =~= rows_of(t0) + ark_block_8());
    }
}

fn ark_rows_12(t: &mut Vec<Vec<Fe>>)
    requires
        table_ok(old(t)@, 3),
    ensures
        table_ok(final(t)@, 3),
        rows_of(final(t)@) == rows_of(old(t)@) + ark_block_12(),
{
    let ghost t0 = t@;
    push_row(t, row3(fe(0xe938607b5feca6fa, 0x353a59a7cdd72a99, 0xcc440d404a7bfa64, 0x25db093767397241), fe(0xce05b16a01c48835, 0xb8bea9f2ecdc7a44, 0x337d8671c7a52182, 0x4d181c6c331ca9b4), fe(0x965418b02dbc6bd8, 0xd5015b85dfbd77b2, 0x627a65a21bef2106, 0x0a38019787f4cc1c)));
    push_row(t, row3(fe(0x3a6ebc9aa6ddc5f0, 0x0858112aec831693, 0x8403f6219c507441, 0x0d70bafa4cfb81c1), fe(0x79f612fde5800a0a, 0xca0c2efef23b04a4, 0xf56bc056ad8bf740, 0x05d3688ba56f34fd), fe(0x811c69ae363b4452, 0x2e26d872d98b3cce, 0x9e67ed336e82dc6c, 0x2a29abdef3fef803)));
    push_row(t, row3(fe(0xac58daf2d3fc44de, 0xb2c43d1e33c92b57, 0xee400801a56f236d, 0x1be8096ecfcbce15), fe(0x02265354c57db9da, 0x3f2c85481b4b076c, 0xaa19b04a9b3f9c72, 0x13d2114613d277b7), fe(0xadca32056aeaef1e, 0xfb37f3fcf1fb2958, 0x424da2f5b1ac1e73, 0x3be19e4597319855)));
    push_row(t, row3(fe(0xca0ec7a123c00ae2, 0x4170c37841fef49a, 0x4a4d1c4c8f27932e, 0x658aecc0081b55df), fe(0xec09308d65d2ca6e, 0xe4ef3c859db5b714, 0x5460b71995790396, 0x6f57b4b7ee98e17e), fe(0x48dc6cc426718b79, 0xeec1e34efd2ec6d5, 0x8d59e73f2fee715e, 0x0edcd95a404490ef)));
    proof {
        assert(rows_of(t@) =~= rows_of(t0) + ark_block_12());
    }
}

fn ark_rows_16(t: &mut Vec<Vec<Fe>>)
    requires
        table_ok(old(t)@, 3),
    ensures
        table_ok(final(t)@, 3),
        rows_of(final(t)@) == rows_of(old(t)@) + ark_block_16(),
{
    let ghost t0 = t@;
    push_row(t, row3(fe(0x606b34a60b1e9c66, 0xa044f14088fedae9, 0x73427e34ab8fbb7c, 0x103a915b18147094), fe(0x9a62768a547bfc03, 0x6cfdbc9a367d1a27, 0xc68228fa86526990, 0x395d549e93fb8460), fe(0xb08375eff6e762d8, 0x84bd0ad92d9c5c72, 0x52de9c6cee0580fc, 0x16068011f3c31ba1)));
    push_row(t, row3(fe(0x6b2b01c1bec0814c, 0x16709e0c48e3020c, 0xbe5dff3ce06e8cb9, 0x0ff751f98968213f), fe(0xd45cd6e0bff811f7, 0x6aea4c1a226d0cb7, 0xc8f7a85964922d31, 0x2f81c4111ca20035), fe(0x7ed4fe50e8e0dbc5, 0x3a172ce169d8143e, 0x8117456cf4ec10af, 0x62238e765ad233ab)));
    push_row(t, row3(fe(0x7fbaad907fc912c1, 0xa4ba83cc6e0ae352, 0x59b78f6acfca9a21, 0x48b58921a3fbdc4e), fe(0x6e52821c2e2b1b22, 0x211d84eb2fb27b81, 0xb9d16b61c2973847, 0x222a4f8a5cdc74b8), fe(0xb112f810ad670370, 0xdeb1765c61516ffc, 0xfeccbbc9a50b2cee, 0x0c1cf6db5d6145fe)));
    push_row(t, row3(fe(0xade9de12416b684a, 0x58ac6beffdfc5b45, 0xe9c22df285a9146a, 0x5cd09d156fd65f9c), fe(0x51df0b8339be1499, 0x1956e6207144804a, 0x314ff59c47863168, 0x07ae4ab69b439b98), fe(0x07c7eb980ea03a0d, 0x2a58282643860b57, 0x2b93310b8ce37b09, 0x3a09cf541e5f7573)));
    proof {
        assert(rows_of(t@) =~= rows_of(t0) + ark_block_16());
    }
}

fn ark_rows_20(t: &mut Vec<Vec<Fe>>)
    requires
        table_ok(old(t)@, 3),
    ensures
        table_ok(final(t)@, 3),
        rows_of(final(t)@) == rows_of(old(t)@) + ark_block_20(),
{
    let ghost t0 = t@;
    push_row(t, row3(fe(0x8c22dd5bfa953288, 0x1e753d1f2871dad2, 0xd8a249839cdfdeb5, 0x72c7bb92d6c1b981), fe(0x670e7a35dea38c96, 0xa2a39c8aca11a914, 0x5dc6d5f59253a627, 0x380e8103a2390335), fe(0xbbf345de2d552f7a, 0x3ef8ca7468d68f4f, 0x06bdc1b4d5f9bed8, 0x46a3725548c66585)));
    push_row(t, row3(fe(0xb447b4b0006a4a4f, 0xbde6b807a22058ec, 0x2d2336f99f4af459, 0x5a9226166da9b2ef), fe(0x64c95db8ecb5d00b, 0x82c8ee69777c7542, 0xda01c83d157cbc0b, 0x0285f6230952eabf), fe(0x895dc1466f35023b, 0x6fd875e3725061df, 0x4b3a874eb6307cda, 0x15b173c8b0eb7ebe)));
    push_row(t, row3(fe(0x370f2165c3d54de1, 0xc448f877e53298b6, 0x87bae06ad491d391, 0x37e1c2d6fde8ad05), fe(0xfa433b58ca6627bb, 0x3bb7321b77739de4, 0x66356d130bce0cdd, 0x28edd04c14bdf81f), fe(0xe240eed7970993ec, 0x2e9e9b6e114c6f94, 0x3dfa5de3fd1526d2, 0x0ccdebba60cee94b)));
    push_row(t, row3(fe(0x89e9579c046e8798, 0x99d3a08814c31c41, 0xd708467e9296fb55, 0x4c472d73b28305fe), fe(0x2cc23614b11170ff, 0xb9d1db6d9b7ffa07, 0x379d33b87086acda, 0x17df4d89eac3ea57), fe(0x822548ec9c4dc4d0, 0x0f9927103e98fb9c, 0xd0ec0493227cfb09, 0x5e2e66dff05068f0)));
    proof {
        assert(rows_of(t@) =~= rows_of(t0) + ark_block_20());
    }
}

fn ark_rows_24(t: &mut Vec<Vec<Fe>>)
    requires
        table_ok(old(t)@, 3),
    ensures
        table_ok(final(t)@, 3),
        rows_of(final(t)@) == rows_of(old(t)@) + ark_block_24(),
{
    let ghost t0 = t@;
    push_row(t, row3(fe(0x65c1d420877eb1ac, 0x8b69f377c4f7dc77, 0xd13ce9236e2a79fe, 0x02f4876ae6aa1539), fe(0x2f30acd57e26d902, 0xb461c8adf173f8de, 0x1dd194c91b9d3c9b, 0x05d09b7240df50d3), fe(0xe5a751b8ce6bcc2f, 0xfae4e6df8b288aef, 0x47288ddc464d976c, 0x0b82e1aa86784b4b)));
    push_row(t, row3(fe(0x120dce85e6122b83, 0x178f3f39ddbe2847, 0x2804643bc6326b02, 0x17be354a3dd4b50b), fe(0x7a602662c2d62c5a, 0x2ca94879ccfab81a, 0x2e5d00b6b83e52a5, 0x6a250f430b7fe8ae), fe(0xbbb1efb89a258635, 0xbea86a78d1587acb, 0xec7876ef63b5b925, 0x69db87a15023a037)));
    push_row(t, row3(fe(0xfcf784a63a0fd5d4, 0xfd08fd4208a785cf, 0x510f616fa8b87900, 0x7235ec5973916579), fe(0x5523c00b372cc66f, 0x396b5c0ba3376e85, 0x207be77e9d11e38f, 0x3ced4e872eb7e7ad), fe(0xfb7d861c4f275a25, 0x3d46afa705908f68, 0xb756ef3f6331890b, 0x55f9406febca3923)));
    push_row(t, row3(fe(0x97edf442abdaa4af, 0x0b5a0c354663946e, 0x2ee0c759ace69bbb, 0x25ec1daeb061a3b5), fe(0xfa530f42c5359547, 0x1625d7a39478f04e, 0x015e54861f311edc, 0x60c336cf923329f7), fe(0xc49d6fd2b033d917, 0x7f5c4ce0648cc975, 0xcede92a3a8f0149b, 0x35c72d38a9ecc3a2)));
    proof {
        assert(rows_of(t@) =~= rows_of(t0) + ark_block_24());
    }
}

fn ark_rows_28(t: &mut Vec<Vec<Fe>>)
    requires
        table_ok(old(t)@, 3),
    ensures
        table_ok(final(t)@, 3),
        rows_of(final(t)@) == rows_of(old(t)@) + ark_block_28(),
{
    let ghost t0 = t@;
    push_row(t, row3(fe(0x19702cefcead4bac, 0x6b6596bbd2f4e657, 0x1725d8aa67ddba62, 0x0f558bbea55584d0), fe(0x0a44cf7b3eef17d7, 0x1cf3b3d26ed039b7, 0x22e4c96c566c4e65, 0x5d22e7c76b6329a1), fe(0x567289b77087bf6f, 0x6e4c578dcaad0a69, 0xf8b2e12341c90bf3, 0x0c9b6c8640b1ba78)));
    push_row(t, row3(fe(0x23f4d8a6f32867ad, 0xca2e99f5742b6bf2, 0x16926346857dec8c, 0x3e502262c51ad96d), fe(0xcd3a5932d2ec0e66, 0x95a54600437a5744, 0xf54f4ffcfc273db8, 0x3bddb87a966b169d), fe(0x01b221c6d2a1cea3, 0xb4335bb696bc1521, 0x9298396806d16509, 0x0b1042eed16da194)));
    push_row(t, row3(fe(0xc1c63e8ee3ec3d82, 0x9948bebd1613c7e4, 0xb7a06e5b54938fd7, 0x11a1540f48f49f8d), fe(0xd6955e7944d4f8a8, 0x4067a617c34c7147, 0x80fcf9fdf620cb90, 0x6a4225f6a0fefa0a), fe(0x06fcf838aef5314f, 0x3227f01b54bede22, 0xb2f3c2c4d7144df3, 0x3a47e20006e60c63)));
    push_row(t, row3(fe(0x629f8b41fefb12ef, 0x78a17f119d5e6e70, 0x6d47a5f4d23b92a3, 0x67da445b81e9b49f), fe(0x43b7016256118343, 0xa9027882bef17389, 0x9fc5737e189d5096, 0x02b22dab62f0817e), fe(0xfbef432d790e50f2, 0x2e42a2709bec44ba, 0x545a4ec1bf32b4c6, 0x11d3b2a0d00dfb14)));
    proof {
        assert(rows_of(t@) =~= rows_of(t0) + ark_block_28());
    }
}

fn ark_rows_32(t: &mut Vec<Vec<Fe>>)
    requires
        table_ok(old(t)@, 3),
    ensures
        table_ok(final(t)@, 3),
        rows_of(final(t)@) == rows_of(old(t)@) + ark_block_32(),
{
    let ghost t0 = t@;
    push_row(t, row3(fe(0x5b682e5bc6360318, 0x3ec672398e4b2abd, 0xeaa93bb12f6da1e7, 0x137d6fda9251496a), fe(0xf0bdb2905b3e086c, 0x9b30ddb4178d46de, 0x0f362f6cb423d200, 0x5070efaeae36f759), fe(0x25a0e4137ccaeefc, 0x2b11013cb806b21e, 0xa3c5d71673749ed7, 0x10916af4e3aa292a)));
    push_row(t, row3(fe(0xfd1b8a4fc1dc605c, 0xfb3d0fe5bb3aa743, 0x0bbf9674e544bda0, 0x3a9fd44305a5aa1e), fe(0xaa6363d8619f9780, 0xf99f1f72d887c944, 0xcfb60174c57fbda8, 0x088ff5d799d54e55), fe(0xc14b58f6b8989b68, 0xe1bf2ab394718052, 0x98c31d526d91c357, 0x1255016194ae2bda)));
    push_row(t, row3(fe(0x7acd79af1d958840, 0x6894033400bf1d4b, 0x9932eea251cc9f57, 0x489c394f45c8262d), fe(0x1b9d57baa02e9210, 0x2da684f15a07cd3d, 0x8c3ed355b95b451f, 0x17c3f5fbc7f81b34), fe(0x2884c52039013e00, 0x71596f9cd59e55ad, 0xa576b74790b21949, 0x5fd2dd994756eb86)));
    push_row(t, row3(fe(0x02970ef0f2e8c5fb, 0x8b3327e29e9e7650, 0xf300df869823b9f1, 0x41922810cc08f593), fe(0x71cbd4a98ed418bb, 0xe6029f73ab019458, 0xea0d09cf90ce9c55, 0x114193a7ce2b93f6), fe(0x376c5bcbb6ea78a3, 0x359787bb53de686c, 0x761888ec38613069, 0x43df5535baac8935)));
    proof {
        assert(rows_of(t@) =~= rows_of(t0) + ark_block_32());
    }
}

fn ark_rows_36(t: &mut Vec<Vec<Fe>>)
    requires
        table_ok(old(t)@, 3),
    ensures
        table_ok(final(t)@, 3),
        rows_of(final(t)@) == rows_of(old(t)@) + ark_block_36(),
{
    let ghost t0 = t@;
    push_row(t, row3(fe(0x19e40a1cb008ddb7, 0x4d9a35d2e06b048a, 0xda8c727bdcb48819, 0x02b9427f40637235), fe(0x078ba6e1912e101a, 0x72d6811dde135af4, 0x4273ce4ee6929ba3, 0x36cb64e3a0d37ad0), fe(0xded4bf5953837fb8, 0xad43714257949cd9, 0x62f05f688129bf30, 0x50d63b53707ad033)));
    proof {
        assert(rows_of(t@) =~= rows_of(t0) + ark_block_36());
    }
}

pub open spec fn mds_table() -> Seq<Seq<Fe>> {
    seq![
        seq![Fe { limbs: [0x49baafe86d5989c2u64, 0x43b7a8012c9fba01u64, 0xd49df6c7f5128b11u64, 0x5f92976a00ab503eu64] }, Fe { limbs: [0x05a1e7dbece109c0u64, 0x02e7e47ee282ea1bu64, 0x6041fa7643d73e2bu64, 0x2dd44641a270a481u64] }, Fe { limbs: [0xe54900bad0631089u64, 0x4cce5f450e392e5fu64, 0x81dfbdac9dc72b62u64, 0x1f8fcff5cf00e716u64] }],
        seq![Fe { limbs: [0x06d08ddba837ad89u64, 0x983ec9bcec227038u64, 0xcd3571992780b29au64, 0x06b8431905a16718u64] }, Fe { limbs: [0xfec83c7f7d75663du64, 0xf7533d0e0f06a1afu64, 0xaf78f53b3dfe3989u64, 0x0ec41a4a77dc192eu64] }, Fe { limbs: [0x2b254cfae058085du64, 0x50db8df8886faa9au64, 0x50593ac4499e4c24u64, 0x529633d5af881e74u64] }],
        seq![Fe { limbs: [0x995655082253d4dcu64, 0x27f84b61f535bb46u64, 0x5ff0ca4b3c46d79eu64, 0x3a8c0fc716fd03cdu64] }, Fe { limbs: [0x061db8ad6f6dac27u64, 0xfa2f5218895c116au64, 0x6cfdf620b5e51e5cu64, 0x428dd80696b9b260u64] }, Fe { limbs: [0xc0d8375b3825acd3u64, 0x704868a58fee39d4u64, 0xb7ed6b514cd6dbe0u64, 0x0ca149349b5be217u64] }]
    ]
}

pub open spec fn ark_block_0() -> Seq<Seq<Fe>> {
    seq![
        seq![Fe { limbs: [0x80b7fd8fac77fe88u64, 0x91d086d6810b5248u64, 0x06a3baf14c8858b4u64, 0x62987006c0b7ee95u64] }, Fe { limbs: [0xe4ab1a22f27508cau64, 0x3da43f76abf28a64u64, 0xffc8397a3d00425au64, 0x33827681995d5b5fu64] }, Fe { limbs: [0x7a0dbe17704a8312u64, 0x2cac75dc279b2d68u64, 0xe7f760a2277dc7cbu64, 0x4ba3956d2fad4569u64] }],
        seq![Fe { limbs: [0x882031b0e67ef4dfu64, 0xd55ed4f626a475c7u64, 0xbe026a7a17a8cf53u64, 0x2a391d2753a4a3dcu64] }, Fe { limbs: [0xadfe17baca05d6a7u64, 0x2d327fcc948d772cu64, 0x5bd6df5518cfd41fu64, 0x0f8985f8e1650514u64] }, Fe { limbs: [0x142dcf3534169719u64, 0x7324c665b458801eu64, 0xed128d906b923a3eu64, 0x6954d7bd5cd79925u64] }],
        seq![Fe { limbs: [0x0465e60edce699ddu64, 0x847cd2c5d9d4cb8bu64, 0x454361733f0883c5u64, 0x35af083f36e4c78fu64] }, Fe { limbs: [0xc77e709cfd388892u64, 0xd97bd1f62ff9ef1bu64, 0x21c0676cee117a9fu64, 0x1be96fae94465446u64] }, Fe { limbs: [0xe39584477a6b1d51u64, 0x585dc0f39a018e45u64, 0x68ed209e28684459u64, 0x321632b35e829d0cu64] }],
        seq![Fe { limbs: [0x613b9721f6453a64u64, 0xeebd8870fd13a36bu64, 0x8e79ce13f47ad1cdu64, 0x3c332a6f6bde2f9fu64] }, Fe { limbs: [0xc9e8caeb5cba78eau64, 0x4b9a813aaeff60d6u64, 0x5310a04c4dec2e7eu64, 0x1d3d0ebf61664c9bu64] }, Fe { limbs: [0x1bfc2d16eaabfed4u64, 0x18c5559c928638efu64, 0x27ac13c37e60b525u64, 0x5946c3155faac9e4u64] }]
    ]
}

pub open spec fn ark_block_4() -> Seq<Seq<Fe>> {
    seq![
        seq![Fe { limbs: [0x98147e6add91e5b1u64, 0x32d7075ef23a1d71u64, 0x742944c2e315cca6u64, 0x0963028f17d8d455u64] }, Fe { limbs: [0x2b5794dca268701du64, 0x67cd6538d77fd328u64, 0x43eec72fda8fa703u64, 0x123e8e266448b94au64] }, Fe { limbs: [0x92864c01f54a3fb0u64, 0xe07612a89dd74d96u64, 0x0119f48f3ab77cb9u64, 0x48c2de97f456a9cbu64] }],
        seq![Fe { limbs: [0xe2da084e5aabb79au64, 0x5a465939d04b6c72u64, 0x3af2bf3c03e420eau64, 0x6d3e8a8e8a404d2du64] }, Fe { limbs: [0xf4f9adaa62be8cb5u64, 0xa782a5c81381535eu64, 0xe897751d2e5c8414u64, 0x01dc5d08e9754442u64] }, Fe { limbs: [0x9939c46d1625180bu64, 0x14630dea975b0e97u64, 0x115fa68d9585cdabu64, 0x53d9a1cf7ab9047cu64] }],
        seq![Fe { limbs: [0x5dc6f519bb7ab844u64, 0xf2526a20f9167043u64, 0x6bf5088614b9684fu64, 0x28c0bba6880d2ebdu64] }, Fe { limbs: [0x843849cd0f879356u64, 0xc1a6203741decd72u64, 0xd708dd07234c1b2du64, 0x64526bcaec43e9b7u64] }, Fe { limbs: [0xbfe1ec7f01d613fau64, 0xbef44d92edc6d5b0u64, 0xd81efaea5a75a434u64, 0x69cc9a17b00d36e4u64] }],
        seq![Fe { limbs: [0x0bc7b4a4fde8f028u64, 0xe1eb7284e2b28ed9u64, 0x12aa8cdbead0bc1cu64, 0x4828b1e269b84cd9u64] }, Fe { limbs: [0xbb724dc8a994499fu64, 0xb85bc168cb95ff59u64, 0xea604c7af2391e53u64, 0x2a3d4ba0f3d948a7u64] }, Fe { limbs: [0x59e285eee627df1du64, 0x2269bed2dc0d4dbfu64, 0xb2618213b0d1bf4au64, 0x1dcfd7e44946dad9u64] }]
    ]
}

pub open spec fn ark_block_8() -> Seq<Seq<Fe>> {
    seq![
        seq![Fe { limbs: [0xc31955de8386a761u64, 0x2787caa59f19f49du64, 0xf08a21a93a6523b1u64, 0x0023dc54edb83753u64] }, Fe { limbs: [0x9b3248ee326e92a7u64, 0xab40efae6fa9cd91u64, 0x83e90bab8ae37f8au64, 0x5dcd236bdc15b5fcu64] }, Fe { limbs: [0x741a90bbd53a698au64, 0x2bd999084e30688eu64, 0x60c946418bf0e582u64, 0x005463841390e22du64] }],
        seq![Fe { limbs: [0x8226e7426144f822u64, 0xd781fc9ee51bd8b0u64, 0x4b8e6f03d809c169u64, 0x12714569ac04f047u64] }, Fe { limbs: [0x7fc77d45e1b04561u64, 0x153ca4c02172dd1du64, 0x8dc88f05393d9d03u64, 0x64e50cb07b3873f2u64] }, Fe { limbs: [0xd0b32e1189b6dcc2u64, 0x1d9b499c35f375d7u64, 0x7b430e53238d2babu64, 0x6e2ca053e4da10a5u64] }],
        seq![Fe { limbs: [0x951bff3e3d7e11a5u64, 0xc60fe50d0ae19d66u64, 0x77b9a7d8aeafe41eu64, 0x3b2c4ab79bffa2d9u64] }, Fe { limbs: [0x98935cf47d55a903u64, 0x4050ac92ca52f5c7u64, 0x6a82fe5bb90807f4u64, 0x37645ca5e87a9ff7u64] }, Fe { limbs: [0x015391ca63663774u64, 0x23d4b71d17133438u64, 0x200eed38d248ecdau64, 0x695b8aeaca96ac30u64] }],
        seq![Fe { limbs: [0x96c1b659bf10b2f4u64, 0x65c9f5e608faccc2u64, 0x77487ae8fc8752beu64, 0x246631fa922d00adu64] }, Fe { limbs: [0x3913831d34de2d30u64, 0x406da079615db304u64, 0x93bae89bad6d03aeu64, 0x26a1e960da44c4ecu64] }, Fe { limbs: [0xb70ae6e870e2209cu64, 0x42dc392ceb3887e6u64, 0xaddc4445024e4d10u64, 0x6e5aaa14b285c03au64] }]
    ]
}

pub open spec fn ark_block_12() -> Seq<Seq<Fe>> {
    seq![
        seq![Fe { limbs: [0xe938607b5feca6fau64, 0x353a59a7cdd72a99u64, 0xcc440d404a7bfa64u64, 0x25db093767397241u64] }, Fe { limbs: [0xce05b16a01c48835u64, 0xb8bea9f2ecdc7a44u64, 0x337d8671c7a52182u64, 0x4d181c6c331ca9b4u64] }, Fe { limbs: [0x965418b02dbc6bd8u64, 0xd5015b85dfbd77b2u64, 0x627a65a21bef2106u64, 0x0a38019787f4cc1cu64] }],
        seq![Fe { limbs: [0x3a6ebc9aa6ddc5f0u64, 0x0858112aec831693u64, 0x8403f6219c507441u64, 0x0d70bafa4cfb81c1u64] }, Fe { limbs: [0x79f612fde5800a0au64, 0xca0c2efef23b04a4u64, 0xf56bc056ad8bf740u64, 0x05d3688ba56f34fdu64] }, Fe { limbs: [0x811c69ae363b4452u64, 0x2e26d872d98b3cceu64, 0x9e67ed336e82dc6cu64, 0x2a29abdef3fef803u64] }],
        seq![Fe { limbs: [0xac58daf2d3fc44deu64, 0xb2c43d1e33c92b57u64, 0xee400801a56f236du64, 0x1be8096ecfcbce15u64] }, Fe { limbs: [0x02265354c57db9dau64, 0x3f2c85481b4b076cu64, 0xaa19b04a9b3f9c72u64, 0x13d2114613d277b7u64] }, Fe { limbs: [0xadca32056aeaef1eu64, 0xfb37f3fcf1fb2958u64, 0x424da2f5b1ac1e73u64, 0x3be19e4597319855u64] }],
        seq![Fe { limbs: [0xca0ec7a123c00ae2u64, 0x4170c37841fef49au64, 0x4a4d1c4c8f27932eu64, 0x658aecc0081b55dfu64] }, Fe { limbs: [0xec09308d65d2ca6eu64, 0xe4ef3c859db5b714u64, 0x5460b71995790396u64, 0x6f57b4b7ee98e17eu64] }, Fe { limbs: [0x48dc6cc426718b79u64, 0xeec1e34efd2ec6d5u64, 0x8d59e73f2fee715eu64, 0x0edcd95a404490efu64] }]
    ]
}

pub open spec fn ark_block_16() -> Seq<Seq<Fe>> {
    seq![
        seq![Fe { limbs: [0x606b34a60b1e9c66u64, 0xa044f14088fedae9u64, 0x73427e34ab8fbb7cu64, 0x103a915b18147094u64] }, Fe { limbs: [0x9a62768a547bfc03u64, 0x6cfdbc9a367d1a27u64, 0xc68228fa86526990u64, 0x395d549e93fb8460u64] }, Fe { limbs: [0xb08375eff6e762d8u64, 0x84bd0ad92d9c5c72u64, 0x52de9c6cee0580fcu64, 0x16068011f3c31ba1u64] }],
        seq![Fe { limbs: [0x6b2b01c1bec0814cu64, 0x16709e0c48e3020cu64, 0xbe5dff3ce06e8cb9u64, 0x0ff751f98968213fu64] }, Fe { limbs: [0xd45cd6e0bff811f7u64, 0x6aea4c1a226d0cb7u64, 0xc8f7a85964922d31u64, 0x2f81c4111ca20035u64] }, Fe { limbs: [0x7ed4fe50e8e0dbc5u64, 0x3a172ce169d8143eu64, 0x8117456cf4ec10afu64, 0x62238e765ad233abu64] }],
        seq![Fe { limbs: [0x7fbaad907fc912c1u64, 0xa4ba83cc6e0ae352u64, 0x59b78f6acfca9a21u64, 0x48b58921a3fbdc4eu64] }, Fe { limbs: [0x6e52821c2e2b1b22u64, 0x211d84eb2fb27b81u64, 0xb9d16b61c2973847u64, 0x222a4f8a5cdc74b8u64] }, Fe { limbs: [0xb112f810ad670370u64, 0xdeb1765c61516ffcu64, 0xfeccbbc9a50b2ceeu64, 0x0c1cf6db5d6145feu64] }],
        seq![Fe { limbs: [0xade9de12416b684au64, 0x58ac6beffdfc5b45u64, 0xe9c22df285a9146au64, 0x5cd09d156fd65f9cu64] }, Fe { limbs: [0x51df0b8339be1499u64, 0x1956e6207144804au64, 0x314ff59c47863168u64, 0x07ae4ab69b439b98u64] }, Fe { limbs: [0x07c7eb980ea03a0du64, 0x2a58282643860b57u64, 0x2b93310b8ce37b09u64, 0x3a09cf541e5f7573u64] }]
    ]
}

pub open spec fn ark_block_20() -> Seq<Seq<Fe>> {
    seq![
        seq![Fe { limbs: [0x8c22dd5bfa953288u64, 0x1e753d1f2871dad2u64, 0xd8a249839cdfdeb5u64, 0x72c7bb92d6c1b981u64] }, Fe { limbs: [0x670e7a35dea38c96u64, 0xa2a39c8aca11a914u64, 0x5dc6d5f59253a627u64, 0x380e8103a2390335u64] }, Fe { limbs: [0xbbf345de2d552f7au64, 0x3ef8ca7468d68f4fu64, 0x06bdc1b4d5f9bed8u64, 0x46a3725548c66585u64] }],
        seq![Fe { limbs: [0xb447b4b0006a4a4fu64, 0xbde6b807a22058ecu64, 0x2d2336f99f4af459u64, 0x5a9226166da9b2efu64] }, Fe { limbs: [0x64c95db8ecb5d00bu64, 0x82c8ee69777c7542u64, 0xda01c83d157cbc0bu64, 0x0285f6230952eabfu64] }, Fe { limbs: [0x895dc1466f35023bu64, 0x6fd875e3725061dfu64, 0x4b3a874eb6307cdau64, 0x15b173c8b0eb7ebeu64] }],
        seq![Fe { limbs: [0x370f2165c3d54de1u64, 0xc448f877e53298b6u64, 0x87bae06ad491d391u64, 0x37e1c2d6fde8ad05u64] }, Fe { limbs: [0xfa433b58ca6627bbu64, 0x3bb7321b77739de4u64, 0x66356d130bce0cddu64, 0x28edd04c14bdf81fu64] }, Fe { limbs: [0xe240eed7970993ecu64, 0x2e9e9b6e114c6f94u64, 0x3dfa5de3fd1526d2u64, 0x0ccdebba60cee94bu64] }],
        seq![Fe { limbs: [0x89e9579c046e8798u64, 0x99d3a08814c31c41u64, 0xd708467e9296fb55u64, 0x4c472d73b28305feu64] }, Fe { limbs: [0x2cc23614b11170ffu64, 0xb9d1db6d9b7ffa07u64, 0x379d33b87086acdau64, 0x17df4d89eac3ea57u64] }, Fe { limbs: [0x822548ec9c4dc4d0u64, 0x0f9927103e98fb9cu64, 0xd0ec0493227cfb09u64, 0x5e2e66dff05068f0u64] }]
    ]
}

pub open spec fn ark_block_24() -> Seq<Seq<Fe>> {
    seq![
        seq![Fe { limbs: [0x65c1d420877eb1acu64, 0x8b69f377c4f7dc77u64, 0xd13ce9236e2a79feu64, 0x02f4876ae6aa1539u64] }, Fe { limbs: [0x2f30acd57e26d902u64, 0xb461c8adf173f8deu64, 0x1dd194c91b9d3c9bu64, 0x05d09b7240df50d3u64] }, Fe { limbs: [0xe5a751b8ce6bcc2fu64, 0xfae4e6df8b288aefu64, 0x47288ddc464d976cu64, 0x0b82e1aa86784b4bu64] }],
        seq![Fe { limbs: [0x120dce85e6122b83u64, 0x178f3f39ddbe2847u64, 0x2804643bc6326b02u64, 0x17be354a3dd4b50bu64] }, Fe { limbs: [0x7a602662c2d62c5au64, 0x2ca94879ccfab81au64, 0x2e5d00b6b83e52a5u64, 0x6a250f430b7fe8aeu64] }, Fe { limbs: [0xbbb1efb89a258635u64, 0xbea86a78d1587acbu64, 0xec7876ef63b5b925u64, 0x69db87a15023a037u64] }],
        seq![Fe { limbs: [0xfcf784a63a0fd5d4u64, 0xfd08fd4208a785cfu64, 0x510f616fa8b87900u64, 0x7235ec5973916579u64] }, Fe { limbs: [0x5523c00b372cc66fu64, 0x396b5c0ba3376e85u64, 0x207be77e9d11e38fu64, 0x3ced4e872eb7e7adu64] }, Fe { limbs: [0xfb7d861c4f275a25u64, 0x3d46afa705908f68u64, 0xb756ef3f6331890bu64, 0x55f9406febca3923u64] }],
        seq![Fe { limbs: [0x97edf442abdaa4afu64, 0x0b5a0c354663946eu64, 0x2ee0c759ace69bbbu64, 0x25ec1daeb061a3b5u64] }, Fe { limbs: [0xfa530f42c5359547u64, 0x1625d7a39478f04eu64, 0x015e54861f311edcu64, 0x60c336cf923329f7u64] }, Fe { limbs: [0xc49d6fd2b033d917u64, 0x7f5c4ce0648cc975u64, 0xcede92a3a8f0149bu64, 0x35c72d38a9ecc3a2u64] }]
    ]
}

pub open spec fn ark_block_28() -> Seq<Seq<Fe>> {
    seq![
        seq![Fe { limbs: [0x19702cefcead4bacu64, 0x6b6596bbd2f4e657u64, 0x1725d8aa67ddba62u64, 0x0f558bbea55584d0u64] }, Fe { limbs: [0x0a44cf7b3eef17d7u64, 0x1cf3b3d26ed039b7u64, 0x22e4c96c566c4e65u64, 0x5d22e7c76b6329a1u64] }, Fe { limbs: [0x567289b77087bf6fu64, 0x6e4c578dcaad0a69u64, 0xf8b2e12341c90bf3u64, 0x0c9b6c8640b1ba78u64] }],
        seq![Fe { limbs: [0x23f4d8a6f32867adu64, 0xca2e99f5742b6bf2u64, 0x16926346857dec8cu64, 0x3e502262c51ad96du64] }, Fe { limbs: [0xcd3a5932d2ec0e66u64, 0x95a54600437a5744u64, 0xf54f4ffcfc273db8u64, 0x3bddb87a966b169du64] }, Fe { limbs: [0x01b221c6d2a1cea3u64, 0xb4335bb696bc1521u64, 0x9298396806d16509u64, 0x0b1042eed16da194u64] }],
        seq![Fe { limbs: [0xc1c63e8ee3ec3d82u64, 0x9948bebd1613c7e4u64, 0xb7a06e5b54938fd7u64, 0x11a1540f48f49f8du64] }, Fe { limbs: [0xd6955e7944d4f8a8u64, 0x4067a617c34c7147u64, 0x80fcf9fdf620cb90u64, 0x6a4225f6a0fefa0au64] }, Fe { limbs: [0x06fcf838aef5314fu64, 0x3227f01b54bede22u64, 0xb2f3c2c4d7144df3u64, 0x3a47e20006e60c63u64] }],
        seq![Fe { limbs: [0x629f8b41fefb12efu64, 0x78a17f119d5e6e70u64, 0x6d47a5f4d23b92a3u64, 0x67da445b81e9b49fu64] }, Fe { limbs: [0x43b7016256118343u64, 0xa9027882bef17389u64, 0x9fc5737e189d5096u64, 0x02b22dab62f0817eu64] }, Fe { limbs: [0xfbef432d790e50f2u64, 0x2e42a2709bec44bau64, 0x545a4ec1bf32b4c6u64, 0x11d3b2a0d00dfb14u64] }]
    ]
}

pub open spec fn ark_block_32() -> Seq<Seq<Fe>> {
    seq![
        seq![Fe { limbs: [0x5b682e5bc6360318u64, 0x3ec672398e4b2abdu64, 0xeaa93bb12f6da1e7u64, 0x137d6fda9251496au64] }, Fe { limbs: [0xf0bdb2905b3e086cu64, 0x9b30ddb4178d46deu64, 0x0f362f6cb423d200u64, 0x5070efaeae36f759u64] }, Fe { limbs: [0x25a0e4137ccaeefcu64, 0x2b11013cb806b21eu64, 0xa3c5d71673749ed7u64, 0x10916af4e3aa292au64] }],
        seq![Fe { limbs: [0xfd1b8a4fc1dc605cu64, 0xfb3d0fe5bb3aa743u64, 0x0bbf9674e544bda0u64, 0x3a9fd44305a5aa1eu64] }, Fe { limbs: [0xaa6363d8619f9780u64, 0xf99f1f72d887c944u64, 0xcfb60174c57fbda8u64, 0x088ff5d799d54e55u64] }, Fe { limbs: [0xc14b58f6b8989b68u64, 0xe1bf2ab394718052u64, 0x98c31d526d91c357u64, 0x1255016194ae2bdau64] }],
        seq![Fe { limbs: [0x7acd79af1d958840u64, 0x6894033400bf1d4bu64, 0x9932eea251cc9f57u64, 0x489c394f45c8262du64] }, Fe { limbs: [0x1b9d57baa02e9210u64, 0x2da684f15a07cd3du64, 0x8c3ed355b95b451fu64, 0x17c3f5fbc7f81b34u64] }, Fe { limbs: [0x2884c52039013e00u64, 0x71596f9cd59e55adu64, 0xa576b74790b21949u64, 0x5fd2dd994756eb86u64] }],
        seq![Fe { limbs: [0x02970ef0f2e8c5fbu64, 0x8b3327e29e9e7650u64, 0xf300df869823b9f1u64, 0x41922810cc08f593u64] }, Fe { limbs: [0x71cbd4a98ed418bbu64, 0xe6029f73ab019458u64, 0xea0d09cf90ce9c55u64, 0x114193a7ce2b93f6u64] }, Fe { limbs: [0x376c5bcbb6ea78a3u64, 0x359787bb53de686cu64, 0x761888ec38613069u64, 0x43df5535baac8935u64] }]
    ]
}

pub open spec fn ark_block_36() -> Seq<Seq<Fe>> {
    seq![
        seq![Fe { limbs: [0x19e40a1cb008ddb7u64, 0x4d9a35d2e06b048au64, 0xda8c727bdcb48819u64, 0x02b9427f40637235u64] }, Fe { limbs: [0x078ba6e1912e101au64, 0x72d6811dde135af4u64, 0x4273ce4ee6929ba3u64, 0x36cb64e3a0d37ad0u64] }, Fe { limbs: [0xded4bf5953837fb8u64, 0xad43714257949cd9u64, 0x62f05f688129bf30u64, 0x50d63b53707ad033u64] }]
    ]
}

/// The round constants, one row per round.
pub open spec fn ark_table() -> Seq<Seq<Fe>> {
    ark_block_0() + ark_block_4() + ark_block_8() + ark_block_12() + ark_block_16() + ark_block_20() + ark_block_24() + ark_block_28() + ark_block_32() + ark_block_36()
}

/// The parameters of the commitment's sponge; the same tables on every call.
pub fn poseidon_parameters_for_test() -> (r: PoseidonParameters)
    ensures
        r.wf(),
        r.full_rounds == 8,
        r.partial_rounds == 29,
        r.alpha == 17,
        r.rate == 2,
        r.capacity == 1,
        rows_of(r.mds@) == mds_table(),
        rows_of(r.ark@) == ark_table(),
{
    let mut mds: Vec<Vec<Fe>> = Vec::new();
    mds_rows(&mut mds);
    proof {
        assert(rows_of(Seq::<Vec<Fe>>::empty()) =~= Seq::<Seq<Fe>>::empty());
    }
    let mut ark: Vec<Vec<Fe>> = Vec::new();
    let ghost mut acc: Seq<Seq<Fe>> = Seq::empty();
    ark_rows_0(&mut ark);
    proof { acc = acc + ark_block_0(); }
    ark_rows_4(&mut ark);
    proof { acc = acc + ark_block_4(); }
    ark_rows_8(&mut ark);
    proof { acc = acc + ark_block_8(); }
    ark_rows_12(&mut ark);
    proof { acc = acc + ark_block_12(); }
    ark_rows_16(&mut ark);
    proof { acc = acc + ark_block_16(); }
    ark_rows_20(&mut ark);
    proof { acc = acc + ark_block_20(); }
    ark_rows_24(&mut ark);
    proof { acc = acc + ark_block_24(); }
    ark_rows_28(&mut ark);
    proof { acc = acc + ark_block_28(); }
    ark_rows_32(&mut ark);
    proof { acc = acc + ark_block_32(); }
    ark_rows_36(&mut ark);
    proof { acc = acc + ark_block_36(); }
    proof {
        assert(rows_of(ark@) == acc);
        assert(acc =~= ark_table());
        assert(rows_of(mds@) =~= mds_table());
    }
    PoseidonParameters { full_rounds: 8, partial_rounds: 29, alpha: 17, ark, mds, rate: 2, capacity: 1 }
}

} // verus!
