//! What a pulled OCI image yields: the module binary is the concatenation
//! of the data of every layer whose media type marks Wasm content.

use vstd::prelude::*;

verus! {

/// One layer of a pulled image.
pub struct OciLayer {
    pub media_type: String,
    pub data: Vec<u8>,
}

/// The media types whose layers carry module bytes.
pub open spec fn spec_wasm_media_type(t: Seq<char>) -> bool {
    ||| t == "application/vnd.module.wasm.content.layer.v1+wasm"@
    ||| t == "application/vnd.wasm.content.layer.v1+wasm"@
    ||| t == "application/vnd.oci.image.layer.v1.tar"@
}

/// The module bytes of a run of layers: the accepted layers' data, in order.
pub open spec fn spec_module_bytes(layers: Seq<(Seq<char>, Seq<u8>)>) -> Seq<u8>
    decreases layers.len(),
{
    if layers.len() == 0 {
        Seq::empty()
    } else if spec_wasm_media_type(layers[0].0) {
        layers[0].1 + spec_module_bytes(layers.skip(1))
    } else {
        spec_module_bytes(layers.skip(1))
    }
}

pub open spec fn layers_view(layers: Seq<OciLayer>) -> Seq<(Seq<char>, Seq<u8>)> {
    Seq::new(
        layers.len(),
        |i: int|
            if 0 <= i < layers.len() {
                (layers[i].media_type@, layers[i].data@)
            } else {
                (Seq::empty(), Seq::empty())
            },
    )
}

/// Whether a layer's media type marks Wasm content.
pub fn is_wasm_media_type(t: &str) -> (r: bool)
    ensures
        r == spec_wasm_media_type(t@),
{
    proof {
        reveal_strlit("application/vnd.module.wasm.content.layer.v1+wasm");
        reveal_strlit("application/vnd.wasm.content.layer.v1+wasm");
        reveal_strlit("application/vnd.oci.image.layer.v1.tar");
    }
    crate::model::compare_str(t, "application/vnd.module.wasm.content.layer.v1+wasm")
        || crate::model::compare_str(t, "application/vnd.wasm.content.layer.v1+wasm")
        || crate::model::compare_str(t, "application/vnd.oci.image.layer.v1.tar")
}

/// Concatenates the data of the accepted layers, in order.
pub fn module_bytes_from_layers(layers: &Vec<OciLayer>) -> (r: Vec<u8>)
    ensures
        r@ == spec_module_bytes(layers_view(layers@)),
{
    let ghost whole = layers_view(layers@);
    proof {
        assert(whole.skip(0) =~= whole);
        assert(Seq::<u8>::empty() + spec_module_bytes(whole) =~= spec_module_bytes(whole));
    }
    let mut out: Vec<u8> = Vec::new();
    let mut i: usize = 0;
    while i < layers.len()
        invariant
            i <= layers@.len(),
            whole == layers_view(layers@),
            out@ + spec_module_bytes(whole.skip(i as int)) == spec_module_bytes(whole),
        decreases layers@.len() - i,
    {
        proof {
            assert(whole.skip(i as int)[0] == whole[i as int]);
            assert(whole.skip(i as int).skip(1) =~= whole.skip(i + 1));
        }
        if is_wasm_media_type(layers[i].media_type.as_str()) {
            let ghost out0 = out@;
            let data = &layers[i].data;
            let mut j: usize = 0;
            while j < data.len()
                invariant
                    j <= data@.len(),
                    out@ =~= out0 + data@.take(j as int),
                decreases data@.len() - j,
            {
                out.push(data[j]);
                proof {
                    assert(data@.take(j + 1) =~= data@.take(j as int).push(data@[j as int]));
                    assert(out0 + data@.take(j as int).push(data@[j as int]) =~= (out0
                        + data@.take(j as int)).push(data@[j as int]));
                }
                j = j + 1;
            }
            proof {
                assert(data@.take(data@.len() as int) =~= data@);
                assert(out0 + data@ + spec_module_bytes(whole.skip(i + 1)) =~= out0 + (data@
                    + spec_module_bytes(whole.skip(i + 1))));
            }
        }
        i = i + 1;
    }
    proof {
        assert(whole.skip(layers@.len() as int) =~= Seq::<(Seq<char>, Seq<u8>)>::empty());
        assert(out@ + Seq::<u8>::empty() =~= out@);
    }
    out
}

} // verus!
