use vstd::prelude::*;
use vstd::string::StringSliceAdditionalSpecFns;

verus! {

/// Builds the framed message the host expects: the called function's name
/// bytes, one zero separator byte, then the payload bytes. Handing the frame
/// to the host is the caller's concern.
pub fn frame_message(fn_name: &str, bytes: &[u8]) -> (data: Vec<u8>)
    ensures
        data@ == fn_name.spec_bytes() + seq![0u8] + bytes@,
{
    let fn_name_bytes = fn_name.as_bytes();
    let mut data: Vec<u8> = Vec::new();
    let mut i: usize = 0;
    while i < fn_name_bytes.len()
        invariant
            i <= fn_name_bytes@.len(),
            fn_name_bytes@ == fn_name.spec_bytes(),
            data@ == fn_name_bytes@.take(i as int),
        decreases fn_name_bytes@.len() - i,
    {
        data.push(fn_name_bytes[i]);
        proof {
            assert(data@ =~= fn_name_bytes@.take(i as int + 1));
        }
        i = i + 1;
    }
    proof {
        assert(data@ =~= fn_name.spec_bytes());
    }
    data.push(0);
    let mut k: usize = 0;
    while k < bytes.len()
        invariant
            k <= bytes@.len(),
            data@ == fn_name.spec_bytes() + seq![0u8] + bytes@.take(k as int),
        decreases bytes@.len() - k,
    {
        data.push(bytes[k]);
        proof {
            assert(data@ =~= fn_name.spec_bytes() + seq![0u8] + bytes@.take(k as int + 1));
        }
        k = k + 1;
    }
    proof {
        assert(data@ =~= fn_name.spec_bytes() + seq![0u8] + bytes@);
    }
    data
}

} // verus!
