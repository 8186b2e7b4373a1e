//! Weights that were loaded exist at their full size.
use vstd::prelude::*;
use crate::chatterbox::hift::{
    ChatterboxF0Predictor, ChatterboxHiFT, HiFTResBlock, block_kernel, block_tensors, blocks_tensors,
    conv_at, conv_fits, down_kernel, downs_tensors, f0_input, f0_layers_tensors, f0_tensors,
    hift_tensors, normed_tensors, plain_tensors, snake_conv_tensors,
    source_blocks_tensors, source_kernel, up_input, up_kernel, up_output, ups_tensors,
};
use crate::chatterbox::s3gen::{
    ChatterboxS3ConformerLayer, ChatterboxS3Encoder, S3Input, S3Output, S3Upsample, conformer_group,
    conformer_tensors, conformers_tensors, s3_input_tensors, s3_output_tensors, s3_upsample_tensors,
};
use crate::chatterbox::t3::{
    ChatterboxT3Layer, ChatterboxT3Transformer, t3_layer_tensors, t3_layers_tensors, t3_norm_tensor,
};
use crate::device::{Plan, holds};
use crate::text::decimal;
use crate::weights::{
    Absence, Fault, Role, Tensor, lemma_stored1, lemma_stored2, lemma_stored3, lemma_stores_split, stores,
};

verus! {

proof fn lemma_t3_len(n: nat)
    ensures
        t3_layers_tensors(n).len() == 9 * n,
    decreases n,
{
    if n > 0 {
        lemma_t3_len((n - 1) as nat);
    }
}

proof fn lemma_t3_layer(plan: Plan, base: int, n: nat, i: int)
    requires
        0 <= i < n,
        stores(plan, base, t3_layers_tensors(n)),
    ensures
        ChatterboxT3Layer::at(base + 9 * i).fits(plan),
    decreases n,
{
    let m = (n - 1) as nat;
    let name = "tfmr.layers."@ + decimal(m);
    lemma_t3_len(m);
    lemma_stores_split(plan, base, t3_layers_tensors(m), t3_layer_tensors(name));
    if i == m {
        ChatterboxT3Layer::law_loaded_weights_fit(plan, base + 9 * m, name);
    } else {
        lemma_t3_layer(plan, base, m, i);
    }
}

impl ChatterboxT3Transformer {
    /// Loaded weights exist at their full size, given the rotary factors.
    pub proof fn law_loaded_weights_fit(self, plan: Plan, base: int)
        requires
            stores(plan, base, t3_layers_tensors(30) + seq![t3_norm_tensor()]),
            self.layers@.len() == 30,
            forall|i: int|
                0 <= i < 30 ==> #[trigger] self.layers@[i] == ChatterboxT3Layer::at(base + 9 * i),
            self.final_norm == base + 270,
            holds(plan, self.rope_factors, 32),
        ensures
            self.fits(plan),
    {
        let norm = seq![t3_norm_tensor()];
        lemma_t3_len(30);
        lemma_stores_split(plan, base, t3_layers_tensors(30), norm);
        assert forall|i: int| 0 <= i < self.layers@.len() implies (#[trigger] self.layers@[i]).fits(
            plan,
        ) by {
            lemma_t3_layer(plan, base, 30, i);
        }
        lemma_stored1(plan, base + 270, norm, 0, 1024);
    }
}

proof fn lemma_conformers_len(upsampled: bool, n: nat)
    ensures
        conformers_tensors(upsampled, n).len() == 19 * n,
    decreases n,
{
    if n > 0 {
        lemma_conformers_len(upsampled, (n - 1) as nat);
    }
}

proof fn lemma_conformer(plan: Plan, base: int, upsampled: bool, n: nat, i: int)
    requires
        0 <= i < n,
        stores(plan, base, conformers_tensors(upsampled, n)),
    ensures
        ChatterboxS3ConformerLayer::at(base + 19 * i).fits(plan),
    decreases n,
{
    let m = (n - 1) as nat;
    let name = conformer_group(upsampled) + "."@ + decimal(m);
    lemma_conformers_len(upsampled, m);
    lemma_stores_split(plan, base, conformers_tensors(upsampled, m), conformer_tensors(name));
    if i == m {
        ChatterboxS3ConformerLayer::law_loaded_weights_fit(plan, base + 19 * m, name);
    } else {
        lemma_conformer(plan, base, upsampled, m, i);
    }
}

impl ChatterboxS3Encoder {
    /// Loaded weights exist at their full size.
    pub proof fn law_loaded_weights_fit(self, plan: Plan, base: int)
        requires
            stores(
                plan,
                base,
                s3_input_tensors() + conformers_tensors(false, 6) + s3_upsample_tensors()
                    + conformers_tensors(true, 4) + s3_output_tensors(),
            ),
            self.input == S3Input::at(base),
            self.layers@.len() == 6,
            forall|i: int|
                0 <= i < 6 ==> #[trigger] self.layers@[i] == ChatterboxS3ConformerLayer::at(
                    base + 9 + 19 * i,
                ),
            self.up == S3Upsample::at(base + 123),
            self.up_layers@.len() == 4,
            forall|i: int|
                0 <= i < 4 ==> #[trigger] self.up_layers@[i] == ChatterboxS3ConformerLayer::at(
                    base + 129 + 19 * i,
                ),
            self.output == S3Output::at(base + 205),
        ensures
            self.fits(plan),
    {
        lemma_conformers_len(false, 6);
        lemma_conformers_len(true, 4);
        let t0 = s3_input_tensors();
        let p1 = conformers_tensors(false, 6);
        let p2 = s3_upsample_tensors();
        let p3 = conformers_tensors(true, 4);
        let p4 = s3_output_tensors();
        let t1 = t0 + p1;
        let t2 = t1 + p2;
        let t3 = t2 + p3;
        lemma_stores_split(plan, base, t3, p4);
        lemma_stores_split(plan, base, t2, p3);
        lemma_stores_split(plan, base, t1, p2);
        lemma_stores_split(plan, base, t0, p1);
        S3Input::law_loaded_weights_fit(plan, base);
        S3Upsample::law_loaded_weights_fit(plan, base + 123);
        S3Output::law_loaded_weights_fit(plan, base + 205);
        assert forall|i: int| 0 <= i < self.layers@.len() implies (#[trigger] self.layers@[i]).fits(
            plan,
        ) by {
            lemma_conformer(plan, base + 9, false, 6, i);
        }
        assert forall|i: int| 0 <= i < self.up_layers@.len() implies (
        #[trigger] self.up_layers@[i]).fits(plan) by {
            lemma_conformer(plan, base + 129, true, 4, i);
        }
    }
}

/// A weight-normalised convolution is stored at its full size.
proof fn lemma_normed(
    plan: Plan,
    base: int,
    prefix: Seq<char>,
    absence: Absence,
    a: usize,
    b: usize,
    c: usize,
    bias: usize,
)
    requires
        stores(plan, base, normed_tensors(prefix, absence, a, b, c, bias)),
    ensures
        (base + 1) as usize == base + 1,
        (base + 2) as usize == base + 2,
        holds(plan, (base + 1) as usize, a * b * c),
        holds(plan, (base + 2) as usize, bias as int),
{
    let tensors = normed_tensors(prefix, absence, a, b, c, bias);
    lemma_stored3(plan, base, tensors, 1, a, b, c);
    lemma_stored1(plan, base, tensors, 2, bias);
}

proof fn lemma_f0_len(n: nat)
    ensures
        f0_layers_tensors(n).len() == 3 * n,
    decreases n,
{
    if n > 0 {
        lemma_f0_len((n - 1) as nat);
    }
}

proof fn lemma_f0_layer(plan: Plan, base: int, n: nat, i: int)
    requires
        0 <= i < n,
        stores(plan, base, f0_layers_tensors(n)),
    ensures
        conv_fits(conv_at(base + 3 * i, f0_input(i), 512, 3), plan),
    decreases n,
{
    let m = (n - 1) as nat;
    let name = "mel2wav.f0_predictor.condnet."@ + decimal((2 * (n - 1)) as nat);
    let b = normed_tensors(name, Absence::Unloaded, 512, f0_input(n - 1) as usize, 3, 512);
    lemma_f0_len(m);
    lemma_stores_split(plan, base, f0_layers_tensors(m), b);
    if i == m {
        lemma_normed(plan, base + 3 * m, name, Absence::Unloaded, 512, f0_input(n - 1) as usize, 3, 512);
    } else {
        lemma_f0_layer(plan, base, m, i);
    }
}

impl ChatterboxF0Predictor {
    /// Loaded weights exist at their full size.
    pub proof fn law_loaded_weights_fit(self, plan: Plan, base: int)
        requires
            stores(plan, base, f0_tensors()),
            self.layers@.len() == 5,
            forall|i: int|
                0 <= i < 5 ==> #[trigger] self.layers@[i] == conv_at(
                    base + 3 * i,
                    f0_input(i),
                    512,
                    3,
                ),
            self.classifier_weight == base + 15,
        ensures
            self.fits(plan),
            f0_tensors().len() == 17,
    {
        lemma_f0_len(5);
        let a = f0_layers_tensors(5);
        let b = seq![
            Tensor {
                name: "mel2wav.f0_predictor.classifier.weight"@,
                shape: seq![1, 512],
                fault: Fault::fixed("invalid F0 classifier"@),
                role: Role::Plain,
            },
            Tensor {
                name: "mel2wav.f0_predictor.classifier.bias"@,
                shape: seq![1],
                fault: Fault::fixed("invalid F0 classifier bias"@),
                role: Role::Plain,
            },
        ];
        lemma_stores_split(plan, base, a, b);
        assert forall|i: int| 0 <= i < 5 implies conv_fits(#[trigger] self.layers@[i], plan) by {
            lemma_f0_layer(plan, base, 5, i);
        }
        lemma_stored2(plan, base + 15, b, 0, 1, 512);
    }
}

proof fn lemma_block_len(prefix: Seq<char>, channels: usize, kernel: usize, n: nat)
    ensures
        block_tensors(prefix, channels, kernel, n).len() == 8 * n,
    decreases n,
{
    if n > 0 {
        lemma_block_len(prefix, channels, kernel, (n - 1) as nat);
    }
}

/// One activation and convolution of a residual block.
spec fn half_stored(plan: Plan, base: int, channels: usize, kernel: usize) -> bool {
    &&& base + 4 <= plan.values().len()
    &&& base + 4 <= usize::MAX
    &&& channels <= plan.sizes()[base]
    &&& channels * channels * kernel <= plan.sizes()[base + 2]
    &&& channels <= plan.sizes()[base + 3]
}

proof fn lemma_half(
    plan: Plan,
    base: int,
    prefix: Seq<char>,
    channels: usize,
    kernel: usize,
    index: nat,
    half: nat,
)
    requires
        stores(plan, base, snake_conv_tensors(prefix, channels, kernel, index, half)),
    ensures
        half_stored(plan, base, channels, kernel),
{
    let tensors = snake_conv_tensors(prefix, channels, kernel, index, half);
    lemma_stored1(plan, base, tensors, 0, channels);
    lemma_stored3(plan, base, tensors, 2, channels, channels, kernel);
    lemma_stored1(plan, base, tensors, 3, channels);
    assert(base + 4 <= plan.values().len() && base + 4 <= usize::MAX) by {
        reveal(stores);
    }
}

proof fn lemma_block_half(
    plan: Plan,
    base: int,
    prefix: Seq<char>,
    channels: usize,
    kernel: usize,
    n: nat,
    i: int,
)
    requires
        0 <= i < 2 * n,
        stores(plan, base, block_tensors(prefix, channels, kernel, n)),
    ensures
        half_stored(plan, base + 4 * i, channels, kernel),
    decreases n,
{
    let m = (n - 1) as nat;
    let a = block_tensors(prefix, channels, kernel, m);
    let b = snake_conv_tensors(prefix, channels, kernel, m, 1);
    let c = snake_conv_tensors(prefix, channels, kernel, m, 2);
    lemma_block_len(prefix, channels, kernel, m);
    lemma_stores_split(plan, base, a + b, c);
    lemma_stores_split(plan, base, a, b);
    if i == 2 * m {
        lemma_half(plan, base + 8 * m, prefix, channels, kernel, m, 1);
    } else if i == 2 * m + 1 {
        lemma_half(plan, base + 8 * m + 4, prefix, channels, kernel, m, 2);
    } else {
        lemma_block_half(plan, base, prefix, channels, kernel, m, i);
    }
}

impl HiFTResBlock {
    /// Loaded weights exist at their full size.
    pub proof fn law_loaded_weights_fit(
        plan: Plan,
        base: int,
        prefix: Seq<char>,
        channels: usize,
        kernel: usize,
    )
        requires
            stores(plan, base, block_tensors(prefix, channels, kernel, 3)),
        ensures
            (HiFTResBlock { first: base as usize, channels, kernel }).fits(plan),
            base as usize == base,
    {
        lemma_block_len(prefix, channels, kernel, 3);
        assert(0 <= base && base + 24 <= plan.values().len() && base + 24 <= usize::MAX) by {
            reveal(stores);
        }
        let block = HiFTResBlock { first: base as usize, channels, kernel };
        assert(block.first == base);
        assert forall|i: int| 0 <= i < 6 implies {
            &&& block.channels <= #[trigger] plan.sizes()[block.first + 4 * i]
            &&& block.channels * block.channels * block.kernel <= plan.sizes()[block.first + 4 * i
                + 2]
            &&& block.channels <= plan.sizes()[block.first + 4 * i + 3]
        } by {
            lemma_block_half(plan, base, prefix, channels, kernel, 3, i);
        }
    }
}

proof fn lemma_stage_lens(n: nat)
    ensures
        ups_tensors(n).len() == 3 * n,
        downs_tensors(n).len() == 2 * n,
        source_blocks_tensors(n).len() == 24 * n,
        blocks_tensors(n).len() == 24 * n,
    decreases n,
{
    if n > 0 {
        let m = (n - 1) as nat;
        lemma_stage_lens(m);
        lemma_block_len(
            "mel2wav.source_resblocks."@ + decimal(m),
            up_output(m as int) as usize,
            source_kernel(m as int) as usize,
            3,
        );
        lemma_block_len(
            "mel2wav.resblocks."@ + decimal(m),
            up_output(m as int / 3) as usize,
            block_kernel(m as int % 3) as usize,
            3,
        );
    }
}

proof fn lemma_up(plan: Plan, base: int, n: nat, i: int)
    requires
        0 <= i < n,
        stores(plan, base, ups_tensors(n)),
    ensures
        ({
            let up = ChatterboxHiFT::up_at(base + 3 * i, i);
            &&& holds(plan, up.weight, up_input(i) * up_output(i) * up_kernel(i))
            &&& holds(plan, up.bias, up_output(i))
        }),
    decreases n,
{
    let m = (n - 1) as nat;
    let s = m as int;
    let name = "mel2wav.ups."@ + decimal(m);
    let a = up_input(s) as usize;
    let b = up_output(s) as usize;
    let c = up_kernel(s) as usize;
    lemma_stage_lens(m);
    lemma_stores_split(plan, base, ups_tensors(m), normed_tensors(name, Absence::NotFound, a, b, c, b));
    if i == m {
        lemma_normed(plan, base + 3 * m, name, Absence::NotFound, a, b, c, b);
    } else {
        lemma_up(plan, base, m, i);
    }
}

proof fn lemma_down(plan: Plan, base: int, n: nat, i: int)
    requires
        0 <= i < n,
        stores(plan, base, downs_tensors(n)),
    ensures
        (base + 2 * i) as usize == base + 2 * i,
        (base + 2 * i + 1) as usize == base + 2 * i + 1,
        holds(plan, (base + 2 * i) as usize, up_output(i) * 18 * down_kernel(i)),
        holds(plan, (base + 2 * i + 1) as usize, up_output(i)),
    decreases n,
{
    let m = (n - 1) as nat;
    let s = m as int;
    let name = "mel2wav.source_downs."@ + decimal(m);
    let o = up_output(s) as usize;
    let k = down_kernel(s) as usize;
    let p = plain_tensors(name, 18, o, k);
    lemma_stage_lens(m);
    lemma_stores_split(plan, base, downs_tensors(m), p);
    if i == m {
        lemma_stored3(plan, base + 2 * m, p, 0, o, 18, k);
        lemma_stored1(plan, base + 2 * m, p, 1, o);
    } else {
        lemma_down(plan, base, m, i);
    }
}

proof fn lemma_source_block(plan: Plan, base: int, n: nat, i: int)
    requires
        0 <= i < n,
        stores(plan, base, source_blocks_tensors(n)),
    ensures
        (HiFTResBlock {
            first: (base + 24 * i) as usize,
            channels: up_output(i) as usize,
            kernel: source_kernel(i) as usize,
        }).fits(plan),
    decreases n,
{
    let m = (n - 1) as nat;
    let s = m as int;
    let name = "mel2wav.source_resblocks."@ + decimal(m);
    let c = up_output(s) as usize;
    let k = source_kernel(s) as usize;
    lemma_stage_lens(m);
    lemma_stores_split(plan, base, source_blocks_tensors(m), block_tensors(name, c, k, 3));
    if i == m {
        HiFTResBlock::law_loaded_weights_fit(plan, base + 24 * m, name, c, k);
    } else {
        lemma_source_block(plan, base, m, i);
    }
}

proof fn lemma_main_block(plan: Plan, base: int, n: nat, i: int)
    requires
        0 <= i < n,
        stores(plan, base, blocks_tensors(n)),
    ensures
        (HiFTResBlock {
            first: (base + 24 * i) as usize,
            channels: up_output(i / 3) as usize,
            kernel: block_kernel(i % 3) as usize,
        }).fits(plan),
    decreases n,
{
    let m = (n - 1) as nat;
    let s = m as int;
    let name = "mel2wav.resblocks."@ + decimal(m);
    let c = up_output(s / 3) as usize;
    let k = block_kernel(s % 3) as usize;
    lemma_stage_lens(m);
    lemma_stores_split(plan, base, blocks_tensors(m), block_tensors(name, c, k, 3));
    if i == m {
        HiFTResBlock::law_loaded_weights_fit(plan, base + 24 * m, name, c, k);
    } else {
        lemma_main_block(plan, base, m, i);
    }
}

/// The two tensors of the excitation.
spec fn source_tensors() -> Seq<Tensor> {
    seq![
        Tensor {
            name: "mel2wav.m_source.l_linear.weight"@,
            shape: seq![1, 9],
            fault: Fault::fixed("invalid HiFT source weight"@).before(1),
            role: Role::Plain,
        },
        Tensor {
            name: "mel2wav.m_source.l_linear.bias"@,
            shape: seq![1],
            fault: Fault::fixed("invalid HiFT source bias"@),
            role: Role::Plain,
        },
    ]
}

impl ChatterboxHiFT {
    /// Loaded weights exist at their full size.
    pub proof fn law_loaded_weights_fit(self, plan: Plan, base: int)
        requires
            stores(plan, base, hift_tensors()),
            self.is_at(base),
        ensures
            self.fits(plan),
    {
        lemma_f0_len(5);
        lemma_stage_lens(3);
        lemma_stage_lens(9);
        let t0 = f0_tensors();
        let p1 = source_tensors();
        let p2 = normed_tensors("mel2wav.conv_pre"@, Absence::Unloaded, 512, 80, 7, 512);
        let p3 = ups_tensors(3);
        let p4 = downs_tensors(3);
        let p5 = source_blocks_tensors(3);
        let p6 = blocks_tensors(9);
        let p7 = normed_tensors("mel2wav.conv_post"@, Absence::Unloaded, 18, 64, 7, 18);
        let t1 = t0 + p1;
        let t2 = t1 + p2;
        let t3 = t2 + p3;
        let t4 = t3 + p4;
        let t5 = t4 + p5;
        let t6 = t5 + p6;
        lemma_stores_split(plan, base, t6, p7);
        lemma_stores_split(plan, base, t5, p6);
        lemma_stores_split(plan, base, t4, p5);
        lemma_stores_split(plan, base, t3, p4);
        lemma_stores_split(plan, base, t2, p3);
        lemma_stores_split(plan, base, t1, p2);
        lemma_stores_split(plan, base, t0, p1);
        self.f0.law_loaded_weights_fit(plan, base);
        lemma_normed(plan, base + 19, "mel2wav.conv_pre"@, Absence::Unloaded, 512, 80, 7, 512);
        lemma_normed(plan, base + 325, "mel2wav.conv_post"@, Absence::Unloaded, 18, 64, 7, 18);
        assert forall|i: int| 0 <= i < 3 implies {
            let up = #[trigger] self.ups@[i];
            &&& holds(plan, up.weight, up_input(i) * up_output(i) * up_kernel(i))
            &&& holds(plan, up.bias, up_output(i))
        } by {
            lemma_up(plan, base + 22, 3, i);
        }
        assert forall|i: int| 0 <= i < 3 implies conv_fits(#[trigger] self.source_downs@[i], plan) by {
            lemma_down(plan, base + 31, 3, i);
        }
        assert forall|i: int| 0 <= i < 3 implies (#[trigger] self.source_resblocks@[i]).fits(plan) by {
            lemma_source_block(plan, base + 37, 3, i);
        }
        assert forall|i: int| 0 <= i < 9 implies (#[trigger] self.resblocks@[i]).fits(plan) by {
            lemma_main_block(plan, base + 109, 9, i);
        }
    }
}

} // verus!
